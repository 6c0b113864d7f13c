//! What can go wrong with a report.

use vstd::prelude::*;

verus! {

/// Why a report was not taken.
#[derive(Debug)]
pub enum ApolloExportError {
    ServerError(String),
    ClientError(String),
    Unavailable(String),
}

/// An [`ApolloExportError`] with its text as a character sequence.
pub enum ApolloExportErrorModel {
    ServerError(Seq<char>),
    ClientError(Seq<char>),
    Unavailable(Seq<char>),
}

impl View for ApolloExportError {
    type V = ApolloExportErrorModel;

    open spec fn view(&self) -> ApolloExportErrorModel {
        match self {
            ApolloExportError::ServerError(text) => ApolloExportErrorModel::ServerError(text@),
            ApolloExportError::ClientError(text) => ApolloExportErrorModel::ClientError(text@),
            ApolloExportError::Unavailable(text) => ApolloExportErrorModel::Unavailable(text@),
        }
    }
}

impl ApolloExportErrorModel {
    /// The error as it is shown.
    pub open spec fn message(self) -> Seq<char> {
        match self {
            ApolloExportErrorModel::ServerError(text) => "Apollo exporter server error: "@ + text,
            ApolloExportErrorModel::ClientError(text) => "Apollo exporter client error: "@ + text,
            ApolloExportErrorModel::Unavailable(text) => "Apollo exporter unavailable error: "@
                + text,
        }
    }
}

impl ApolloExportError {
    /// The name of the exporter that fails with this error.
    pub fn exporter_name(&self) -> (name: &'static str)
        ensures
            name@ == "ApolloExporter"@,
    {
        "ApolloExporter"
    }

    /// The error as it is shown.
    pub fn message(&self) -> (message: String)
        ensures
            message@ == self@.message(),
    {
        match self {
            ApolloExportError::ServerError(text) => {
                "Apollo exporter server error: ".to_owned().concat(text.as_str())
            },
            ApolloExportError::ClientError(text) => {
                "Apollo exporter client error: ".to_owned().concat(text.as_str())
            },
            ApolloExportError::Unavailable(text) => {
                "Apollo exporter unavailable error: ".to_owned().concat(text.as_str())
            },
        }
    }
}

/// A failure of the reporter: what an underlying error says.
#[derive(Debug)]
pub struct ReporterError {
    pub source: String,
    pub msg: String,
}

impl ReporterError {
    /// The failure that an underlying error causes, given what that error says of itself.
    pub fn from_error(text: &str) -> (error: Self)
        ensures
            error.source@ == text@,
            error.msg@ == text@,
    {
        ReporterError { source: text.to_owned(), msg: text.to_owned() }
    }

    /// The failure as it is shown.
    pub fn message(&self) -> (message: String)
        ensures
            message@ == "ReporterError: source: "@ + self.source@ + ", message: "@ + self.msg@,
    {
        "ReporterError: source: ".to_owned().concat(self.source.as_str()).concat(
            ", message: ",
        ).concat(self.msg.as_str())
    }
}

} // verus!
