//! The request that carries a report.

use crate::telemetry::error::{ApolloExportError, ApolloExportErrorModel};
use crate::telemetry::header::Package;
use flate2::write::GzEncoder;
use flate2::Compression;
use std::io::Write;
use vstd::prelude::*;

verus! {

/// What is posted.
#[derive(Debug)]
pub struct ReportRequest {
    pub url: String,
    pub api_key: String,
    pub content_encoding: String,
    pub content_type: String,
    pub accept: String,
    pub user_agent: String,
    pub body: Vec<u8>,
}

/// The gzip stream of some bytes at the default level of compression, or the text of the error
/// with which its making fails.
pub uninterp spec fn gzip_stream(content: Seq<u8>) -> Result<Seq<u8>, Seq<char>>;

/// Whether some bytes are framed as a gzip stream that names neither a time, a file nor a system:
/// ten bytes of header before the data, eight of checksum and length behind it.
pub open spec fn is_gzip_framed(stream: Seq<u8>) -> bool {
    &&& stream.len() >= 18
    &&& stream.take(10) == seq![0x1fu8, 0x8b, 8, 0, 0, 0, 0, 0, 0, 255]
}

/// The bytes that a gzip stream was made of: those that compress to it.
pub open spec fn unpacked(stream: Seq<u8>) -> Seq<u8> {
    choose|content: Seq<u8>| gzip_stream(content) == Ok::<Seq<u8>, Seq<char>>(stream)
}

/// Compresses some bytes: a `flate2::write::GzEncoder` over an empty vector, at
/// `Compression::default()`, that is given all of them by `write_all` and then told to `finish`.
/// The encoder is that of `miniz_oxide`. It writes its fixed header first, and a checksum and a
/// length last. It writes neither a time nor a file name into the stream, so the result depends on
/// the bytes alone. The stream unpacks to the bytes that it was made of, so no other bytes make it.
#[verifier::external_body]
fn gzip(content: &[u8]) -> (result: Result<Vec<u8>, String>)
    ensures
        match gzip_stream(content@) {
            Ok(stream) => result is Ok && result->Ok_0@ == stream,
            Err(text) => result is Err && result->Err_0@ == text,
        },
        result is Ok ==> is_gzip_framed(result->Ok_0@),
        result is Ok ==> forall|other: Seq<u8>| #[trigger]
            gzip_stream(other) == Ok::<Seq<u8>, Seq<char>>(result->Ok_0@) ==> other == content@,
{
    let mut encoder = GzEncoder::new(Vec::new(), Compression::default());
    encoder.write_all(content).map_err(|e| e.to_string())?;
    encoder.finish().map_err(|e| e.to_string())
}

/// Whether a request posts `body` to `url`, as a compressed report of `package` with the given key.
pub open spec fn carries(
    request: ReportRequest,
    url: Seq<char>,
    api_key: Seq<char>,
    package: Package,
    body: Seq<u8>,
) -> bool {
    &&& request.url@ == url
    &&& request.api_key@ == api_key
    &&& request.content_encoding@ == "gzip"@
    &&& request.content_type@ == "application/protobuf"@
    &&& request.accept@ == "application/json"@
    &&& request.user_agent@ == package.name@ + " / "@ + package.version@ + " usage reporting"@
    &&& request.body@ == body
}

/// The request with a compressed report; a report that could not be compressed is the client's
/// error.
pub fn compressed_request(
    url: &str,
    api_key: &str,
    package: &Package,
    compressed: Result<Vec<u8>, String>,
) -> (result: Result<ReportRequest, ApolloExportError>)
    ensures
        match compressed {
            Ok(body) => result is Ok && carries(result->Ok_0, url@, api_key@, *package, body@),
            Err(text) => result is Err && result->Err_0@ == ApolloExportErrorModel::ClientError(
                text@,
            ),
        },
{
    match compressed {
        Ok(body) => Ok(
            ReportRequest {
                url: url.to_owned(),
                api_key: api_key.to_owned(),
                content_encoding: "gzip".to_owned(),
                content_type: "application/protobuf".to_owned(),
                accept: "application/json".to_owned(),
                user_agent: package.name.clone().concat(" / ").concat(
                    package.version.as_str(),
                ).concat(" usage reporting"),
                body,
            },
        ),
        Err(text) => Err(ApolloExportError::ClientError(text)),
    }
}

/// Whether `result` is the request with an encoded report, or the client's error where the report
/// could not be encoded or compressed.
pub open spec fn requested(
    url: Seq<char>,
    api_key: Seq<char>,
    package: Package,
    encoded: Result<Vec<u8>, String>,
    result: Result<ReportRequest, ApolloExportError>,
) -> bool {
    match encoded {
        Ok(content) => match gzip_stream(content@) {
            Ok(body) => result is Ok && carries(result->Ok_0, url, api_key, package, body),
            Err(text) => result is Err && result->Err_0@ == ApolloExportErrorModel::ClientError(
                text,
            ),
        },
        Err(text) => result is Err && result->Err_0@ == ApolloExportErrorModel::ClientError(text@),
    }
}

/// The request with an encoded report; a report that could not be encoded or compressed is the
/// client's error.
pub fn report_request(
    url: &str,
    api_key: &str,
    package: &Package,
    encoded: Result<Vec<u8>, String>,
) -> (result: Result<ReportRequest, ApolloExportError>)
    ensures
        requested(url@, api_key@, *package, encoded, result),
        result is Ok ==> is_gzip_framed(result->Ok_0.body@),
        result is Ok ==> encoded is Ok && unpacked(result->Ok_0.body@) == encoded->Ok_0@,
{
    match encoded {
        Ok(content) => compressed_request(url, api_key, package, gzip(content.as_slice())),
        Err(text) => Err(ApolloExportError::ClientError(text)),
    }
}

} // verus!
