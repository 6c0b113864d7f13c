//! What holds of the calls that report usage, in terms of what goes in and what comes out.

use crate::json_ext::{text_members, JsonValue};
use crate::telemetry::batch::{adds_up, pending, steps_add_up, Batch, Input, Step};
use crate::telemetry::error::{ApolloExportError, ReporterError};
use crate::telemetry::header::{windows_uname, Package, ReportHeader, Uname};
use crate::telemetry::keyed::{keyed, KeyedEntries};
use crate::telemetry::outgoing::Outgoing;
use crate::telemetry::report::{Report, TracesAndStats};
use crate::telemetry::request::{
    compressed_request, gzip_stream, report_request, requested, unpacked, ReportRequest,
};
use crate::telemetry::sender::{answers, became, sent, ReportSender, Sent};
use crate::telemetry::submission::{
    strips_from_now_on, Attempt, Outcome, Pause, Resumed, Settled,
};
use crate::telemetry::timestamp::{timestamp_record, Number, Record, Timestamp};
use vstd::prelude::*;

verus! {

/// The status of a readable response decides what an attempt leads to. A server error may be
/// transient: there is a wait, with the text as its message and one failure more. A client error
/// ends the submission with the text, and every other status ends it well.
pub proof fn status_decides(attempt: Attempt, status: u16, text: String)
    ensures
        forall|strip: &mut bool, settled: Settled| #[trigger]
            call_ensures(
                Attempt::settle,
                (attempt, Outcome::Response { status, body: Ok(text) }, strip),
                settled,
            ) ==> if 500 <= status <= 599 {
                &&& settled matches Settled::Wait(pause)
                &&& pause@.0.failures == attempt@.failures + 1
                &&& pause@.0.has_traces == attempt@.has_traces
                &&& pause@.1 == text@
            } else if 400 <= status <= 499 {
                &&& settled matches Settled::Finish(Err(ApolloExportError::ClientError(data)))
                &&& data@ == text@
            } else {
                settled matches Settled::Finish(Ok(()))
            },
{
}

/// A response that cannot be read ends the submission with a server error, whatever its status. A
/// report that did not reach the ingress makes it wait, with one failure more.
pub proof fn lost_answers_and_lost_reports(attempt: Attempt, status: u16, text: String)
    ensures
        forall|strip: &mut bool, settled: Settled| #[trigger]
            call_ensures(
                Attempt::settle,
                (attempt, Outcome::Response { status, body: Err(text) }, strip),
                settled,
            ) ==> {
                &&& settled matches Settled::Finish(Err(ApolloExportError::ServerError(data)))
                &&& data@ == text@
            },
        forall|strip: &mut bool, settled: Settled| #[trigger]
            call_ensures(
                Attempt::settle,
                (attempt, Outcome::NotTransferred(text), strip),
                settled,
            ) ==> {
                &&& settled matches Settled::Wait(pause)
                &&& pause@.0.failures == attempt@.failures + 1
                &&& pause@.0.has_traces == attempt@.has_traces
                &&& pause@.1 == text@
            },
{
}

/// A submission ends well only on a response that was read and has neither a client's nor a
/// server's error for its status.
pub proof fn only_good_statuses_end_well(attempt: Attempt, outcome: Outcome)
    ensures
        forall|strip: &mut bool, settled: Settled| #[trigger]
            call_ensures(Attempt::settle, (attempt, outcome, strip), settled) && (
            settled matches Settled::Finish(Ok(()))) ==> {
                &&& outcome matches Outcome::Response { status, body }
                &&& body is Ok
                &&& !(400 <= status <= 599)
            },
{
}

/// An attempt makes traces be stripped exactly where they were already to be, or where the report
/// has traces, its response is read and has a good status, and the text of the response is a JSON
/// object whose `tracesIgnored` is true.
pub proof fn ignored_traces_alone_set_the_flag(attempt: Attempt, outcome: Outcome)
    ensures
        forall|strip: &mut bool, settled: Settled| #[trigger]
            call_ensures(Attempt::settle, (attempt, outcome, strip), settled) ==> *final(strip) == (
            *strip || {
                &&& attempt@.has_traces
                &&& outcome matches Outcome::Response { status, body }
                &&& body matches Ok(text)
                &&& !(400 <= status <= 599)
                &&& text_members(text@) matches Some(members)
                &&& members.contains_key("tracesIgnored"@)
                &&& members["tracesIgnored"@] == JsonValue::Boolean(true)
            }),
{
}

/// The flag is decided by what was known and what the response says: it stays once it is set, and
/// only a plain `true` about a report with traces sets it.
pub proof fn only_a_plain_true_sets_the_flag(
    strip: bool,
    has_traces: bool,
    member: Option<JsonValue>,
    result: bool,
)
    requires
        call_ensures(strips_from_now_on, (strip, has_traces, member), result),
    ensures
        strip ==> result,
        !strip && !has_traces ==> !result,
        !strip && has_traces ==> (result <==> member == Some(JsonValue::Boolean(true))),
{
}

/// Whether these attempts and waits follow each other: the first attempt is that of a report whose
/// request could be built, each attempt comes to a wait, and each wait but the last to the next
/// attempt.
pub open spec fn keeps_failing(
    outgoing: Outgoing,
    attempts: Seq<Attempt>,
    outcomes: Seq<Outcome>,
    pauses: Seq<Pause>,
) -> bool {
    &&& attempts.len() == pauses.len()
    &&& outcomes.len() == pauses.len()
    &&& attempts.len() > 0 ==> call_ensures(
        Attempt::first,
        (&outgoing, Ok(())),
        Ok(attempts[0]),
    )
    &&& forall|i: int|
        0 <= i < pauses.len() ==> exists|strip: &mut bool| #[trigger]
            call_ensures(
                Attempt::settle,
                (attempts[i], #[trigger] outcomes[i], strip),
                Settled::Wait(pauses[i]),
            )
    &&& forall|i: int|
        0 < i < pauses.len() ==> call_ensures(
            Pause::resume,
            (pauses[i - 1],),
            Resumed::Execute(#[trigger] attempts[i]),
        )
}

/// The waits of a submission grow by fifty milliseconds each. There are five at most, and after the
/// fifth the ingress counts as unavailable, for the reason of the last attempt.
pub proof fn waits_grow_and_end(
    outgoing: Outgoing,
    attempts: Seq<Attempt>,
    outcomes: Seq<Outcome>,
    pauses: Seq<Pause>,
    i: int,
)
    requires
        keeps_failing(outgoing, attempts, outcomes, pauses),
        0 <= i < pauses.len(),
    ensures
        i < 5,
        attempts[i]@.failures == i,
        attempts[i]@.has_traces == outgoing.had_traces(),
        forall|delay: u64| #[trigger]
            call_ensures(Pause::delay_millis, (&pauses[i],), delay) ==> delay == 50 * (i + 1),
        forall|number: u32| #[trigger]
            call_ensures(Pause::attempt, (&pauses[i],), number) ==> number == i + 1,
        forall|message: &str| #[trigger]
            call_ensures(Pause::message, (&pauses[i],), message) ==> match outcomes[i] {
                Outcome::NotTransferred(text) => message@ == text@,
                Outcome::Response { body: Ok(text), .. } => message@ == text@,
                Outcome::Response { body: Err(_), .. } => false,
            },
        forall|resumed: Resumed| #[trigger]
            call_ensures(Pause::resume, (pauses[i],), resumed) ==> if i < 4 {
                resumed matches Resumed::Execute(_)
            } else {
                &&& resumed matches Resumed::Finish(Err(ApolloExportError::Unavailable(reason)))
                &&& reason@ == pauses[i]@.1
            },
    decreases i,
{
    if i > 0 {
        waits_grow_and_end(outgoing, attempts, outcomes, pauses, i - 1);
        assert(call_ensures(Pause::resume, (pauses[i - 1],), Resumed::Execute(attempts[i])));
        let before = outcomes[i - 1];
        let strip = choose|strip: &mut bool| #[trigger]
            call_ensures(
                Attempt::settle,
                (attempts[i - 1], before, strip),
                Settled::Wait(pauses[i - 1]),
            );
        assert(call_ensures(
            Attempt::settle,
            (attempts[i - 1], before, strip),
            Settled::Wait(pauses[i - 1]),
        ));
    }
    let outcome = outcomes[i];
    let strip = choose|strip: &mut bool| #[trigger]
        call_ensures(Attempt::settle, (attempts[i], outcome, strip), Settled::Wait(pauses[i]));
    assert(call_ensures(
        Attempt::settle,
        (attempts[i], outcome, strip),
        Settled::Wait(pauses[i]),
    ));
}

/// The first attempt has no failures behind it. There is none where the request could not be built:
/// then the ingress counts as unavailable, for the reason given.
pub proof fn first_attempts_start_afresh(
    outgoing: Outgoing,
    built: Result<(), String>,
    result: Result<Attempt, ApolloExportError>,
)
    requires
        call_ensures(Attempt::first, (&outgoing, built), result),
    ensures
        match built {
            Ok(()) => {
                &&& result matches Ok(attempt)
                &&& attempt@.failures == 0
                &&& attempt@.has_traces == outgoing.had_traces()
            },
            Err(text) => {
                &&& result matches Err(ApolloExportError::Unavailable(reason))
                &&& reason@ == text@
            },
        },
{
}

/// What the exporter does next is of the kind that the input asks for: it stops exactly where no
/// report will come in any more, submits and goes on exactly where the time is over, and waits
/// exactly where a report comes in. What it submits is what it held.
pub proof fn inputs_decide_steps<T, R: Default, A: Fn(R, T) -> R>(
    batch: Batch<R>,
    input: Input<T>,
    gather: A,
    step: Step<R>,
)
    requires
        call_ensures(Batch::<R>::step::<T, A>, (batch, input, gather), step),
    ensures
        step is SubmitAndStop <==> input is Closed,
        step is Submit <==> input is Tick,
        step is Wait <==> input is Received,
        step matches Step::SubmitAndStop(report) ==> report == batch.report,
        step matches Step::Submit(report, next) ==> report == batch.report && call_ensures(
            R::default,
            (),
            next.report,
        ),
        step matches Step::Wait(next) ==> call_ensures(
            gather,
            (batch.report, input->Received_0),
            next.report,
        ),
{
}

/// A new batch holds an empty report, so it adds up to no reports at all.
pub proof fn new_batches_are_empty<T, R: Default, A: Fn(R, T) -> R>(batch: Batch<R>, gather: A)
    requires
        call_ensures(Batch::<R>::new, (), batch),
    ensures
        call_ensures(R::default, (), batch.report),
        adds_up(gather, Seq::<T>::empty(), batch.report),
{
}

/// Whether these steps follow each other, each from the batch that the one before left.
pub open spec fn runs<T, R: Default, A: Fn(R, T) -> R>(
    batches: Seq<Batch<R>>,
    inputs: Seq<Input<T>>,
    gather: A,
    steps: Seq<Step<R>>,
) -> bool {
    &&& batches.len() == steps.len()
    &&& steps.len() <= inputs.len()
    &&& forall|i: int|
        0 <= i < steps.len() ==> call_ensures(
            Batch::<R>::step::<T, A>,
            (batches[i], inputs[i], gather),
            #[trigger] steps[i],
        )
    &&& forall|i: int|
        0 <= i < steps.len() - 1 ==> match #[trigger] steps[i] {
            Step::Wait(next) => next == batches[i + 1],
            Step::Submit(_, next) => next == batches[i + 1],
            Step::SubmitAndStop(_) => false,
        }
}

/// A run of the exporter ends at the first input that says that no report will come in any more,
/// and only there.
pub proof fn runs_end_when_closed<T, R: Default, A: Fn(R, T) -> R>(
    batches: Seq<Batch<R>>,
    inputs: Seq<Input<T>>,
    gather: A,
    steps: Seq<Step<R>>,
)
    requires
        runs(batches, inputs, gather, steps),
        steps.len() > 0,
    ensures
        forall|i: int| 0 <= i < steps.len() - 1 ==> !(#[trigger] inputs[i] is Closed),
        steps.last() is SubmitAndStop <==> inputs[steps.len() - 1] is Closed,
{
    assert forall|i: int| 0 <= i < steps.len() - 1 implies !(#[trigger] inputs[i] is Closed) by {
        inputs_decide_steps(batches[i], inputs[i], gather, steps[i]);
    }
    let last = steps.len() - 1;
    inputs_decide_steps(batches[last], inputs[last], gather, steps[last]);
}

/// Along a run from a new batch, each batch holds what the reports that came in since the last
/// submission add up to, each once and in order, and so does each submission.
pub proof fn runs_add_up<T, R: Default, A: Fn(R, T) -> R>(
    batches: Seq<Batch<R>>,
    inputs: Seq<Input<T>>,
    gather: A,
    steps: Seq<Step<R>>,
    i: int,
)
    requires
        runs(batches, inputs, gather, steps),
        0 <= i < steps.len(),
        call_ensures(Batch::<R>::new, (), batches[0]),
    ensures
        adds_up(gather, pending(inputs.take(i)), batches[i].report),
        steps[i] matches Step::Submit(report, _) ==> adds_up(
            gather,
            pending(inputs.take(i)),
            report,
        ),
        steps[i] matches Step::SubmitAndStop(report) ==> adds_up(
            gather,
            pending(inputs.take(i)),
            report,
        ),
    decreases i,
{
    if i == 0 {
        assert(inputs.take(0) =~= Seq::empty());
    } else {
        let before = inputs.take(i - 1);
        runs_add_up(batches, inputs, gather, steps, i - 1);
        steps_add_up(gather, before, inputs[i - 1], batches[i - 1], steps[i - 1]);
        assert(before.push(inputs[i - 1]) =~= inputs.take(i));
        assert(!(steps[i - 1] is SubmitAndStop));
    }
    inputs_decide_steps(batches[i], inputs[i], gather, steps[i]);
}

/// The whole of an encoded report is sent: unpacking the body of the request gives exactly what
/// was encoded.
pub proof fn whole_reports_are_sent(
    url: &str,
    api_key: &str,
    package: Package,
    content: Vec<u8>,
    result: Result<ReportRequest, ApolloExportError>,
)
    requires
        call_ensures(report_request, (url, api_key, &package, Ok(content)), result),
    ensures
        result is Ok <==> gzip_stream(content@) is Ok,
        result matches Ok(request) ==> {
            &&& unpacked(request.body@) == content@
            &&& gzip_stream(content@) == Ok::<Seq<u8>, Seq<char>>(request.body@)
            &&& request.body@.len() >= 18
        },
        result matches Err(error) ==> {
            &&& error matches ApolloExportError::ClientError(text)
            &&& gzip_stream(content@) == Err::<Seq<u8>, Seq<char>>(text@)
        },
{
}

/// Requests with the same body carry the same encoded report.
pub proof fn different_reports_differ_on_the_way(
    url: &str,
    api_key: &str,
    package: Package,
    content: Vec<u8>,
    request: ReportRequest,
    other: Vec<u8>,
    other_request: ReportRequest,
)
    requires
        call_ensures(report_request, (url, api_key, &package, Ok(content)), Ok(request)),
        call_ensures(report_request, (url, api_key, &package, Ok(other)), Ok(other_request)),
        request.body@ == other_request.body@,
    ensures
        content@ == other@,
{
    whole_reports_are_sent(url, api_key, package, content, Ok(request));
    whole_reports_are_sent(url, api_key, package, other, Ok(other_request));
}

/// Every request says where it goes, whose it is, what is in it and what is accepted in return.
pub proof fn requests_say_what_they_are(
    url: &str,
    api_key: &str,
    package: Package,
    encoded: Result<Vec<u8>, String>,
    request: ReportRequest,
)
    requires
        call_ensures(report_request, (url, api_key, &package, encoded), Ok(request)),
    ensures
        encoded is Ok,
        request.url@ == url@,
        request.api_key@ == api_key@,
        request.content_encoding@ == "gzip"@,
        request.content_type@ == "application/protobuf"@,
        request.accept@ == "application/json"@,
        request.user_agent@ == package.name@ + " / "@ + package.version@ + " usage reporting"@,
{
}

/// A report that could not be encoded, or not compressed, is the client's error, with the reason.
/// A compressed report is the body of its request as it is.
pub proof fn failures_before_sending_are_the_clients(
    url: &str,
    api_key: &str,
    package: Package,
    given: Result<Vec<u8>, String>,
    result: Result<ReportRequest, ApolloExportError>,
)
    ensures
        call_ensures(report_request, (url, api_key, &package, given), result) ==> match given {
            Err(text) => {
                &&& result matches Err(ApolloExportError::ClientError(reason))
                &&& reason@ == text@
            },
            Ok(_) => true,
        },
        call_ensures(compressed_request, (url, api_key, &package, given), result) ==> match given {
            Err(text) => {
                &&& result matches Err(ApolloExportError::ClientError(reason))
                &&& reason@ == text@
            },
            Ok(body) => {
                &&& result matches Ok(request)
                &&& request.body@ == body@
                &&& request.url@ == url@
                &&& request.api_key@ == api_key@
                &&& request.content_encoding@ == "gzip"@
                &&& request.content_type@ == "application/protobuf"@
                &&& request.accept@ == "application/json"@
                &&& request.user_agent@ == package.name@ + " / "@ + package.version@
                    + " usage reporting"@
            },
        },
{
}

/// What is sent of a report unpacks to what the encoder made of its header and of the report as it
/// goes out, all of it.
pub proof fn outgoing_reports_are_sent_whole<
    E: Fn(&ReportHeader, &Report) -> Result<Vec<u8>, String>,
>(
    outgoing: Outgoing,
    header: ReportHeader,
    url: &str,
    api_key: &str,
    package: Package,
    encode: E,
    result: Result<ReportRequest, ApolloExportError>,
)
    requires
        call_ensures(
            Outgoing::request::<E>,
            (&outgoing, &header, url, api_key, &package, encode),
            result,
        ),
    ensures
        exists|encoded: Result<Vec<u8>, String>| #[trigger]
            call_ensures(encode, (&header, &outgoing.report()), encoded) && match encoded {
                Ok(content) => {
                    &&& result is Ok <==> gzip_stream(content@) is Ok
                    &&& result matches Ok(request) ==> {
                        &&& unpacked(request.body@) == content@
                        &&& gzip_stream(content@) == Ok::<Seq<u8>, Seq<char>>(request.body@)
                        &&& request.url@ == url@
                        &&& request.api_key@ == api_key@
                    }
                    &&& result matches Err(error) ==> {
                        &&& error matches ApolloExportError::ClientError(text)
                        &&& gzip_stream(content@) == Err::<Seq<u8>, Seq<char>>(text@)
                    }
                },
                Err(text) => {
                    &&& result matches Err(ApolloExportError::ClientError(reason))
                    &&& reason@ == text@
                },
            },
{
    let encoded = choose|encoded: Result<Vec<u8>, String>|
        #![trigger call_ensures(encode, (&header, &outgoing.report()), encoded)]
        call_ensures(encode, (&header, &outgoing.report()), encoded)
            && requested(
            url@,
            api_key@,
            package,
            encoded,
            result,
        ) && (result is Ok ==> encoded is Ok && unpacked(result->Ok_0.body@) == encoded->Ok_0@);
    assert(call_ensures(encode, (&header, &outgoing.report()), encoded));
}

/// What goes out of a report is all of it, on each query and in the same order, and its traces too
/// unless they are to be stripped; then none of them. Nothing goes out exactly where there is no
/// count of operations and no entry.
pub proof fn outgoing_reports_keep_all_but_traces(
    report: Report,
    strip_traces: bool,
    result: Option<Outgoing>,
)
    requires
        call_ensures(Outgoing::new, (report, strip_traces), result),
    ensures
        result is None <==> report.operation_count == 0 && report.traces_per_query@.len() == 0,
        result matches Some(outgoing) ==> {
            &&& keeps_all_but_traces(report, strip_traces, outgoing.report())
            &&& outgoing.had_traces() == has_traces(report.traces_per_query@)
        },
{
    lemma_has_traces(report);
}

/// Whether there is a trace of either kind in any entry.
pub open spec fn has_traces(entries: Seq<(Seq<char>, TracesAndStats)>) -> bool {
    exists|i: int|
        0 <= i < entries.len() && ((#[trigger] entries[i]).1.trace@.len() != 0
            || entries[i].1.internal_traces_contributing_to_stats@.len() != 0)
}

/// Whether `after` is `before` but for its traces, which it has exactly where they are not stripped.
pub open spec fn keeps_all_but_traces(before: Report, strip: bool, after: Report) -> bool {
    &&& after.operation_count == before.operation_count
    &&& after.traces_per_query@.len() == before.traces_per_query@.len()
    &&& forall|i: int|
        #![trigger after.traces_per_query@[i]]
        0 <= i < after.traces_per_query@.len() ==> {
            let (key, given) = before.traces_per_query@[i];
            let (same_key, left) = after.traces_per_query@[i];
            &&& same_key == key
            &&& left.stats_with_context == given.stats_with_context
            &&& left.referenced_fields_by_type == given.referenced_fields_by_type
            &&& strip ==> left.trace@.len() == 0
            &&& strip ==> left.internal_traces_contributing_to_stats@.len() == 0
            &&& !strip ==> left == given
        }
}

proof fn lemma_has_traces(report: Report)
    ensures
        report.carries_traces() == has_traces(report.traces_per_query@),
{
    let entries = report.traces_per_query@;
    if has_traces(entries) {
        let i = choose|i: int|
            0 <= i < entries.len() && ((#[trigger] entries[i]).1.trace@.len() != 0
                || entries[i].1.internal_traces_contributing_to_stats@.len() != 0);
        assert(report.traces_per_query@[i].1.carries_traces());
    }
}

/// Stripping says whether there were traces, and takes away nothing else.
pub proof fn stripping_takes_traces_alone(report: Report, strip: bool, result: (Report, bool))
    requires
        call_ensures(Report::strip_traces, (report, strip), result),
    ensures
        keeps_all_but_traces(report, strip, result.0),
        result.1 == has_traces(report.traces_per_query@),
        has_traces(result.0.traces_per_query@) == (has_traces(report.traces_per_query@) && !strip),
{
    lemma_has_traces(report);
    assert(keeps_all_but_traces(report, strip, result.0));
    if !strip {
        assert(result.0.traces_per_query@ =~= report.traces_per_query@);
    }
}

/// A report needs submission exactly where it counts an operation or has an entry.
pub proof fn only_empty_reports_need_no_submission(report: Report, needed: bool)
    requires
        call_ensures(Report::needs_submission, (&report,), needed),
    ensures
        needed <==> report.operation_count > 0 || report.traces_per_query@.len() > 0,
{
}

/// Entries are refused exactly where two of them have the same key, and otherwise kept: what is
/// listed is what was given.
pub proof fn entries_with_distinct_keys_are_kept<T>(
    entries: Vec<(String, T)>,
    result: Option<KeyedEntries<T>>,
)
    requires
        call_ensures(KeyedEntries::<T>::from_entries, (entries,), result),
    ensures
        result is None <==> exists|i: int, j: int|
            #![trigger entries@[i], entries@[j]]
            0 <= i < j < entries@.len() && entries@[i].0@ == entries@[j].0@,
        result matches Some(kept) ==> forall|listed: &Vec<(String, T)>| #[trigger]
            call_ensures(KeyedEntries::<T>::entries, (&kept,), listed) ==> {
                &&& listed@.len() == entries@.len()
                &&& forall|i: int|
                    0 <= i < entries@.len() ==> (#[trigger] listed@[i]).0@ == entries@[i].0@
                        && listed@[i].1 == entries@[i].1
            },
        result matches Some(kept) ==> forall|listed: Vec<(String, T)>| #[trigger]
            call_ensures(KeyedEntries::<T>::into_entries, (kept,), listed) ==> {
                &&& listed@.len() == entries@.len()
                &&& forall|i: int|
                    0 <= i < entries@.len() ==> (#[trigger] listed@[i]).0@ == entries@[i].0@
                        && listed@[i].1 == entries@[i].1
            },
{
    let all = keyed(entries@);
    assert(forall|i: int|
        0 <= i < entries@.len() ==> #[trigger] all[i] == (entries@[i].0@, entries@[i].1));
    if result is None {
        let (i, j) = choose|i: int, j: int|
            0 <= i < j < all.len() && (#[trigger] all[i]).0 == (#[trigger] all[j]).0;
        assert(entries@[i].0@ == entries@[j].0@);
    } else {
        let kept = result->Some_0;
        assert forall|i: int, j: int|
            #![trigger entries@[i], entries@[j]]
            0 <= i < j < entries@.len() implies entries@[i].0@ != entries@[j].0@ by {
            assert(all[i].0 != all[j].0);
        }
        assert forall|listed: &Vec<(String, T)>| #[trigger]
            call_ensures(KeyedEntries::<T>::entries, (&kept,), listed) implies {
            &&& listed@.len() == entries@.len()
            &&& forall|i: int|
                0 <= i < entries@.len() ==> (#[trigger] listed@[i]).0@ == entries@[i].0@
                    && listed@[i].1 == entries@[i].1
        } by {
            lemma_listed(listed@, entries@);
        }
        assert forall|listed: Vec<(String, T)>| #[trigger]
            call_ensures(KeyedEntries::<T>::into_entries, (kept,), listed) implies {
            &&& listed@.len() == entries@.len()
            &&& forall|i: int|
                0 <= i < entries@.len() ==> (#[trigger] listed@[i]).0@ == entries@[i].0@
                    && listed@[i].1 == entries@[i].1
        } by {
            lemma_listed(listed@, entries@);
        }
    }
}

proof fn lemma_listed<T>(listed: Seq<(String, T)>, entries: Seq<(String, T)>)
    requires
        keyed(listed) == keyed(entries),
    ensures
        listed.len() == entries.len(),
        forall|i: int|
            0 <= i < entries.len() ==> (#[trigger] listed[i]).0@ == entries[i].0@ && listed[i].1
                == entries[i].1,
{
    let all = keyed(entries);
    assert(all.len() == entries.len());
    assert(keyed(listed).len() == listed.len());
    assert forall|i: int| 0 <= i < entries.len() implies (#[trigger] listed[i]).0@ == entries[i].0@
        && listed[i].1 == entries[i].1 by {
        assert(all[i] == (entries[i].0@, entries[i].1));
        assert(keyed(listed)[i] == (listed[i].0@, listed[i].1));
    }
}

/// A report to nowhere is ignored. One to the exporter never is: it is queued, or it comes back as
/// it was.
pub proof fn reports_are_queued_or_come_back<T>(
    sender: ReportSender<T>,
    report: T,
    result: Sent<T>,
)
    requires
        call_ensures(ReportSender::<T>::send, (&sender, report), result),
    ensures
        result is Ignored <==> sender is Noop,
        result matches Sent::Dropped(dropped, reason) ==> dropped == report && reason@
            == "send failed because receiver is gone"@,
        sender matches ReportSender::Apollo(channel) ==> {
            &&& result is Queued ==> answers(channel, report, Ok(()))
            &&& result matches Sent::Dropped(dropped, reason)
                ==> answers(channel, report, Err((dropped, reason)))
        },
{
    if let ReportSender::Apollo(channel) = sender {
        let answer = choose|answer: Result<(), (T, String)>| #[trigger]
            answers(channel, report, answer) && result == became(answer);
        match answer {
            Ok(unit) => {
                assert(unit == ());
            },
            Err(back) => {
                assert(back == (back.0, back.1));
            },
        }
    }
}

/// What the channel takes is queued, and what it gives back is dropped with the reason.
pub proof fn answers_are_told_apart<T>(answer: Result<(), (T, String)>, result: Sent<T>)
    requires
        call_ensures(sent::<T>, (answer,), result),
    ensures
        answer is Ok <==> result is Queued,
        answer is Err <==> result is Dropped,
        answer matches Err(back) ==> result->Dropped_0 == back.0 && result->Dropped_1 == back.1,
{
}

/// A copy of a sender, and one by default, send where they should.
pub proof fn copies_send_to_the_same_place<T>(sender: ReportSender<T>, copy: ReportSender<T>)
    ensures
        call_ensures(ReportSender::<T>::clone, (&sender,), copy) ==> (copy is Noop
            <==> sender is Noop),
        call_ensures(ReportSender::<T>::default, (), copy) ==> copy is Noop,
{
}

/// The header names the package, the graph, the schema and the machine, each as it was given.
pub proof fn headers_name_the_sender(
    package: Package,
    graph_ref: &str,
    schema_id: &str,
    hostname: String,
    uname: String,
    header: ReportHeader,
)
    requires
        call_ensures(ReportHeader::new, (&package, graph_ref, schema_id, hostname, uname), header),
    ensures
        header.graph_ref@ == graph_ref@,
        header.hostname@ == hostname@,
        header.agent_version@ == package.name@ + seq!['@'] + package.version@,
        header.runtime_version@ == "rust"@,
        header.uname@ == uname@,
        header.executable_schema_id@ == schema_id@,
{
    reveal_strlit("@");
    assert("@"@ =~= seq!['@']);
}

/// The five parts of a system's name follow each other, each with a comma behind it.
pub proof fn unames_hold_all_parts(uname: Uname, text: String)
    requires
        call_ensures(Uname::text, (&uname,), text),
    ensures
        text@ == uname.sysname@ + ", "@ + uname.nodename@ + ", "@ + uname.release@ + ", "@
            + uname.version@ + ", "@ + uname.machine@ + ","@,
{
}

/// On Windows the parts that are known stand for themselves, and the others are unknown.
pub proof fn windows_unames_hold_what_is_known(
    os_type: Option<String>,
    hostname: Option<String>,
    os_release: Option<String>,
    text: String,
)
    requires
        call_ensures(windows_uname, (os_type, hostname, os_release), text),
    ensures
        text@ == (if os_type is Some {
            os_type->Some_0@
        } else {
            "Windows"@
        }) + ", "@ + (if hostname is Some {
            hostname->Some_0@
        } else {
            "unknown"@
        }) + ", "@ + (if os_release is Some {
            os_release->Some_0@
        } else {
            "unknown"@
        }) + ", "@ + "unknown"@ + ", "@ + "unknown"@,
{
}

/// A point in time is written with its seconds and its nanoseconds, in this order and unchanged.
pub proof fn timestamps_are_written_whole(timestamp: Option<Timestamp>, record: Option<Record>)
    requires
        call_ensures(timestamp_record, (&timestamp,), record),
    ensures
        record is Some <==> timestamp is Some,
        timestamp matches Some(point) ==> {
            let members = record->Some_0.members@;
            &&& record->Some_0.name@ == "Timestamp"@
            &&& members.len() == 2
            &&& members[0].name@ == "seconds"@
            &&& members[0].value == Number::I64(point.seconds)
            &&& members[1].name@ == "nanos"@
            &&& members[1].value == Number::I32(point.nanos)
        },
{
}

/// An export error is shown by its kind and then its text; the exporter has one name.
pub proof fn export_errors_show_kind_and_text(error: ApolloExportError)
    ensures
        forall|message: String| #[trigger]
            call_ensures(ApolloExportError::message, (&error,), message) ==> match error {
                ApolloExportError::ServerError(text) => message@
                    == "Apollo exporter server error: "@ + text@,
                ApolloExportError::ClientError(text) => message@
                    == "Apollo exporter client error: "@ + text@,
                ApolloExportError::Unavailable(text) => message@
                    == "Apollo exporter unavailable error: "@ + text@,
            },
        forall|name: &'static str| #[trigger]
            call_ensures(ApolloExportError::exporter_name, (&error,), name) ==> name@
                == "ApolloExporter"@,
{
}

/// The reporter's error holds what the underlying error says, twice, and shows both.
pub proof fn reporter_errors_show_their_source(text: &str, error: ReporterError, message: String)
    requires
        call_ensures(ReporterError::from_error, (text,), error),
        call_ensures(ReporterError::message, (&error,), message),
    ensures
        error.source@ == text@,
        error.msg@ == text@,
        message@ == "ReporterError: source: "@ + text@ + ", message: "@ + text@,
{
}

} // verus!
