//! A report on the use of a graph.

use crate::telemetry::keyed::{keyed, keys_are_distinct, KeyedEntries};
use vstd::prelude::*;

verus! {

/// What is reported of one query. Each message is held as its encoded bytes.
#[derive(Debug)]
pub struct TracesAndStats {
    pub trace: Vec<Vec<u8>>,
    pub stats_with_context: Vec<Vec<u8>>,
    pub internal_traces_contributing_to_stats: Vec<Vec<u8>>,
    pub referenced_fields_by_type: KeyedEntries<Vec<u8>>,
}

/// A report on a number of operations, with an entry for each query.
#[derive(Debug)]
pub struct Report {
    pub traces_per_query: KeyedEntries<TracesAndStats>,
    pub operation_count: u64,
}

impl TracesAndStats {
    /// Whether there are traces of either kind.
    pub open spec fn carries_traces(self) -> bool {
        self.trace@.len() > 0 || self.internal_traces_contributing_to_stats@.len() > 0
    }

    /// Whether `stripped` is this without its traces.
    pub open spec fn without_traces(self, stripped: Self) -> bool {
        &&& stripped.trace@.len() == 0
        &&& stripped.internal_traces_contributing_to_stats@.len() == 0
        &&& stripped.stats_with_context == self.stats_with_context
        &&& stripped.referenced_fields_by_type == self.referenced_fields_by_type
    }
}

/// Whether `after` is the entry `before` of a report without its traces.
pub open spec fn entry_without_traces(
    before: (Seq<char>, TracesAndStats),
    after: (Seq<char>, TracesAndStats),
) -> bool {
    after.0 == before.0 && before.1.without_traces(after.1)
}

impl Report {
    /// Whether there is anything to report. There may be traces without a count of operations.
    pub open spec fn reports_anything(self) -> bool {
        self.operation_count != 0 || self.traces_per_query@.len() > 0
    }

    /// Whether there are traces of any query.
    pub open spec fn carries_traces(self) -> bool {
        exists|i: int|
            0 <= i < self.traces_per_query@.len() && (
            #[trigger] self.traces_per_query@[i]).1.carries_traces()
    }

    /// Whether `after` is this report, without its traces where `strip` is set.
    pub open spec fn stripped(self, strip: bool, after: Self) -> bool {
        &&& after.operation_count == self.operation_count
        &&& after.traces_per_query@.len() == self.traces_per_query@.len()
        &&& !strip ==> after.traces_per_query@ == self.traces_per_query@
        &&& strip ==> forall|i: int|
            0 <= i < self.traces_per_query@.len() ==> entry_without_traces(
                self.traces_per_query@[i],
                #[trigger] after.traces_per_query@[i],
            )
    }

    /// Whether there is anything to report. There may be traces without a count of operations.
    pub fn needs_submission(&self) -> (needed: bool)
        ensures
            needed == self.reports_anything(),
    {
        self.operation_count != 0 || self.traces_per_query.entries().len() > 0
    }

    /// Looks for traces, and removes them all where `strip` is set. Says whether there were any.
    pub fn strip_traces(self, strip: bool) -> (result: (Self, bool))
        ensures
            self.stripped(strip, result.0),
            keys_are_distinct(result.0.traces_per_query@),
            result.1 == self.carries_traces(),
    {
        let ghost before = self.traces_per_query@;
        let operation_count = self.operation_count;
        let mut entries = self.traces_per_query.into_entries();
        let mut had_traces = false;
        let mut i: usize = 0;
        while i < entries.len()
            invariant
                i <= entries@.len(),
                entries@.len() == before.len(),
                had_traces == exists|j: int|
                    0 <= j < i && (#[trigger] before[j]).1.carries_traces(),
                forall|j: int| i <= j < before.len() ==> keyed(entries@)[j] == #[trigger] before[j],
                !strip ==> keyed(entries@) == before,
                strip ==> forall|j: int|
                    0 <= j < i ==> entry_without_traces(before[j], #[trigger] keyed(entries@)[j]),
            decreases entries@.len() - i,
        {
            let ghost at = entries@;
            assert(keyed(at)[i as int] == before[i as int]);
            let entry = &mut entries[i];
            if entry.1.trace.len() > 0 || entry.1.internal_traces_contributing_to_stats.len() > 0 {
                assert(before[i as int].1.carries_traces());
                had_traces = true;
                if strip {
                    entry.1.trace.clear();
                    entry.1.internal_traces_contributing_to_stats.clear();
                }
            }
            assert forall|j: int| 0 <= j < at.len() && j != i implies #[trigger] keyed(entries@)[j]
                == keyed(at)[j] by {}
            i += 1;
        }
        assert forall|j: int, k: int| 0 <= j < k < entries@.len() implies (#[trigger] keyed(
            entries@,
        )[j]).0 != (#[trigger] keyed(entries@)[k]).0 by {
            assert(before[j].0 != before[k].0);
        }
        let traces_per_query = KeyedEntries::from_distinct(entries);
        (Report { traces_per_query, operation_count }, had_traces)
    }
}

/// A report that was stripped carries no traces, and there is something to report exactly where
/// there was before.
pub proof fn stripped_reports_carry_no_traces(report: Report, after: Report)
    requires
        report.stripped(true, after),
    ensures
        !after.carries_traces(),
        after.reports_anything() == report.reports_anything(),
{
    assert forall|i: int|
        0 <= i < after.traces_per_query@.len() implies !(
    #[trigger] after.traces_per_query@[i]).1.carries_traces() by {
        assert(entry_without_traces(report.traces_per_query@[i], after.traces_per_query@[i]));
    }
}

} // verus!
