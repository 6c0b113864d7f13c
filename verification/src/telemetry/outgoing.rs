//! A report on its way to the ingress.

use crate::telemetry::error::ApolloExportError;
use crate::telemetry::header::{Package, ReportHeader};
use crate::telemetry::keyed::keys_are_distinct;
use crate::telemetry::report::{stripped_reports_carry_no_traces, Report};
use crate::telemetry::request::{
    is_gzip_framed, report_request, requested, unpacked, ReportRequest,
};
use vstd::prelude::*;

verus! {

/// A report that is about to be sent. Where traces are to be stripped, it holds none any more.
#[derive(Debug)]
pub struct Outgoing {
    report: Report,
    had_traces: bool,
}

impl Outgoing {
    /// What is sent.
    pub closed spec fn report(self) -> Report {
        self.report
    }

    /// Whether there were traces before any were stripped.
    pub closed spec fn had_traces(self) -> bool {
        self.had_traces
    }

    /// The report as it is sent, without its traces where `strip_traces` is set, if there is
    /// anything to report.
    pub fn new(report: Report, strip_traces: bool) -> (outgoing: Option<Self>)
        ensures
            match outgoing {
                None => !report.reports_anything(),
                Some(outgoing) => {
                    &&& report.reports_anything()
                    &&& report.stripped(strip_traces, outgoing.report())
                    &&& strip_traces ==> !outgoing.report().carries_traces()
                    &&& keys_are_distinct(outgoing.report().traces_per_query@)
                    &&& outgoing.had_traces() == report.carries_traces()
                },
            },
    {
        if !report.needs_submission() {
            return None;
        }
        let ghost given = report;
        let (report, had_traces) = report.strip_traces(strip_traces);
        proof {
            if strip_traces {
                stripped_reports_carry_no_traces(given, report);
            }
        }
        Some(Outgoing { report, had_traces })
    }

    /// Whether there were traces before any were stripped.
    pub(crate) fn contained_traces(&self) -> (contained: bool)
        ensures
            contained == self.had_traces(),
    {
        self.had_traces
    }

    /// The request that carries the report with its header, as `encode` encodes the two; a report
    /// that could not be encoded or compressed is the client's error.
    pub fn request<E: Fn(&ReportHeader, &Report) -> Result<Vec<u8>, String>>(
        &self,
        header: &ReportHeader,
        url: &str,
        api_key: &str,
        package: &Package,
        encode: E,
    ) -> (result: Result<ReportRequest, ApolloExportError>)
        requires
            call_requires(encode, (header, &self.report())),
        ensures
            exists|encoded: Result<Vec<u8>, String>|
                #![trigger call_ensures(encode, (header, &self.report()), encoded)]
                call_ensures(encode, (header, &self.report()), encoded) && requested(
                    url@,
                    api_key@,
                    *package,
                    encoded,
                    result,
                ) && (result is Ok ==> encoded is Ok && unpacked(result->Ok_0.body@)
                    == encoded->Ok_0@),
            result is Ok ==> is_gzip_framed(result->Ok_0.body@),
    {
        report_request(url, api_key, package, encode(header, &self.report))
    }
}

} // verus!
