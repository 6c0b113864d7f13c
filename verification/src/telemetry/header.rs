//! The header of every report: who sends it, and from where.

use vstd::prelude::*;

verus! {

/// The program that reports.
#[derive(Debug)]
pub struct Package {
    pub name: String,
    pub version: String,
}

/// What the operating system says of itself and of the machine.
#[derive(Debug)]
pub struct Uname {
    pub sysname: String,
    pub nodename: String,
    pub release: String,
    pub version: String,
    pub machine: String,
}

/// Five parts, with a comma and a space between them.
pub open spec fn five_parts(
    first: Seq<char>,
    second: Seq<char>,
    third: Seq<char>,
    fourth: Seq<char>,
    fifth: Seq<char>,
) -> Seq<char> {
    first + ", "@ + second + ", "@ + third + ", "@ + fourth + ", "@ + fifth
}

fn join_five(first: &str, second: &str, third: &str, fourth: &str, fifth: &str) -> (text: String)
    ensures
        text@ == five_parts(first@, second@, third@, fourth@, fifth@),
{
    first.to_owned().concat(", ").concat(second).concat(", ").concat(third).concat(", ").concat(
        fourth,
    ).concat(", ").concat(fifth)
}

impl Uname {
    /// The five parts in one text, which ends in a comma.
    pub fn text(&self) -> (text: String)
        ensures
            text@ == five_parts(
                self.sysname@,
                self.nodename@,
                self.release@,
                self.version@,
                self.machine@,
            ) + ","@,
    {
        join_five(
            self.sysname.as_str(),
            self.nodename.as_str(),
            self.release.as_str(),
            self.version.as_str(),
            self.machine.as_str(),
        ).concat(",")
    }
}

/// The text behind an optional string, or another text where there is none.
pub open spec fn text_or(text: Option<String>, other: Seq<char>) -> Seq<char> {
    match text {
        Some(text) => text@,
        None => other,
    }
}

fn or_text(text: Option<String>, other: &str) -> (result: String)
    ensures
        result@ == text_or(text, other@),
{
    match text {
        Some(text) => text,
        None => other.to_owned(),
    }
}

/// The text for Windows, which tells less of itself: only the kind of system, the host and the
/// release, and not always those. It does not end in a comma.
pub fn windows_uname(
    os_type: Option<String>,
    hostname: Option<String>,
    os_release: Option<String>,
) -> (text: String)
    ensures
        text@ == five_parts(
            text_or(os_type, "Windows"@),
            text_or(hostname, "unknown"@),
            text_or(os_release, "unknown"@),
            "unknown"@,
            "unknown"@,
        ),
{
    join_five(
        or_text(os_type, "Windows").as_str(),
        or_text(hostname, "unknown").as_str(),
        or_text(os_release, "unknown").as_str(),
        "unknown",
        "unknown",
    )
}

/// The header of a report.
#[derive(Debug)]
pub struct ReportHeader {
    pub graph_ref: String,
    pub hostname: String,
    pub agent_version: String,
    pub runtime_version: String,
    pub uname: String,
    pub executable_schema_id: String,
}

impl ReportHeader {
    /// The header of the reports on one graph and schema from one host.
    pub fn new(
        package: &Package,
        graph_ref: &str,
        schema_id: &str,
        hostname: String,
        uname: String,
    ) -> (header: Self)
        ensures
            header.graph_ref@ == graph_ref@,
            header.hostname@ == hostname@,
            header.agent_version@ == package.name@ + "@"@ + package.version@,
            header.runtime_version@ == "rust"@,
            header.uname@ == uname@,
            header.executable_schema_id@ == schema_id@,
    {
        ReportHeader {
            graph_ref: graph_ref.to_owned(),
            hostname,
            agent_version: package.name.clone().concat("@").concat(package.version.as_str()),
            runtime_version: "rust".to_owned(),
            uname,
            executable_schema_id: schema_id.to_owned(),
        }
    }
}

} // verus!
