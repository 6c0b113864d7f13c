use apollo_router::telemetry::batch::{Batch, Input, Step};
use apollo_router::telemetry::error::{ApolloExportError, ReporterError};
use apollo_router::telemetry::header::{windows_uname, Package, ReportHeader, Uname};
use apollo_router::telemetry::keyed::KeyedEntries;
use apollo_router::telemetry::outgoing::Outgoing;
use apollo_router::telemetry::report::{Report, TracesAndStats};
use apollo_router::telemetry::request::{compressed_request, report_request};
use apollo_router::telemetry::sender::{sent, ReportSender, Sent};
use apollo_router::telemetry::submission::{
    strips_from_now_on, Attempt, Outcome, Pause, Resumed, Settled,
};
use apollo_router::json_ext::JsonValue;
use apollo_router::telemetry::timestamp::{timestamp_record, Number, Timestamp};
use futures::StreamExt;
use std::io::Read;

fn package() -> Package {
    Package { name: "apollo-router".to_string(), version: "1.10.0".to_string() }
}

fn header() -> ReportHeader {
    ReportHeader::new(
        &package(),
        "graph@current",
        "schema-1",
        "host".to_string(),
        "Linux,".to_string(),
    )
}

fn query(key: &str, trace: Vec<Vec<u8>>, internal: Vec<Vec<u8>>) -> (String, TracesAndStats) {
    let traces_and_stats = TracesAndStats {
        trace,
        stats_with_context: vec![vec![9]],
        internal_traces_contributing_to_stats: internal,
        referenced_fields_by_type: KeyedEntries::from_entries(vec![("User".to_string(), vec![8])])
            .unwrap(),
    };
    (key.to_string(), traces_and_stats)
}

fn report(traces_per_query: Vec<(String, TracesAndStats)>, operation_count: u64) -> Report {
    Report {
        traces_per_query: KeyedEntries::from_entries(traces_per_query).unwrap(),
        operation_count,
    }
}

fn outgoing(has_traces: bool, strip_traces: bool) -> Outgoing {
    let trace = if has_traces { vec![vec![1]] } else { vec![] };
    Outgoing::new(report(vec![query("q", trace, vec![])], 1), strip_traces).unwrap()
}

fn first_attempt(has_traces: bool) -> Attempt {
    Attempt::first(&outgoing(has_traces, false), Ok(())).unwrap()
}

/// Every byte of a report, after a mark for the part that it belongs to.
fn encode(_: &ReportHeader, report: &Report) -> Result<Vec<u8>, String> {
    let mut content = vec![];
    for (key, entry) in report.traces_per_query.entries() {
        content.extend_from_slice(key.as_bytes());
        for bytes in &entry.trace {
            content.push(b'T');
            content.extend_from_slice(bytes);
        }
        for bytes in &entry.stats_with_context {
            content.push(b'S');
            content.extend_from_slice(bytes);
        }
        for bytes in &entry.internal_traces_contributing_to_stats {
            content.push(b'I');
            content.extend_from_slice(bytes);
        }
        for (ty, bytes) in entry.referenced_fields_by_type.entries() {
            content.extend_from_slice(ty.as_bytes());
            content.extend_from_slice(bytes);
        }
    }
    content.push(report.operation_count as u8);
    Ok(content)
}

fn unpacked(body: &[u8]) -> Vec<u8> {
    let mut unpacked = Vec::new();
    flate2::read::GzDecoder::new(body).read_to_end(&mut unpacked).unwrap();
    unpacked
}

/// What is posted of a report.
fn posted(report: Report, strip_traces: bool) -> Vec<u8> {
    let outgoing = Outgoing::new(report, strip_traces).unwrap();
    unpacked(&outgoing.request(&header(), "u", "k", &package(), encode).unwrap().body)
}

fn response(status: u16, body: &str) -> Outcome {
    Outcome::Response { status, body: Ok(body.to_string()) }
}

fn finish(settled: Settled) -> Result<(), ApolloExportError> {
    match settled {
        Settled::Finish(result) => result,
        other => panic!("unexpected wait: {:?}", other),
    }
}

fn wait(settled: Settled) -> Pause {
    match settled {
        Settled::Wait(pause) => pause,
        other => panic!("unexpected end: {:?}", other),
    }
}

#[test]
fn export_errors_show_their_kind() {
    let text = || "gone".to_string();
    assert_eq!(
        ApolloExportError::ServerError(text()).message(),
        "Apollo exporter server error: gone"
    );
    assert_eq!(
        ApolloExportError::ClientError(text()).message(),
        "Apollo exporter client error: gone"
    );
    assert_eq!(
        ApolloExportError::Unavailable(text()).message(),
        "Apollo exporter unavailable error: gone"
    );
    assert_eq!(ApolloExportError::Unavailable(text()).exporter_name(), "ApolloExporter");
}

#[test]
fn reporter_error_shows_its_source() {
    let error = ReporterError::from_error("no route");
    assert_eq!(error.msg, "no route");
    assert_eq!(error.message(), "ReporterError: source: no route, message: no route");
}

#[test]
fn header_names_the_sender() {
    let header = header();
    assert_eq!(header.graph_ref, "graph@current");
    assert_eq!(header.hostname, "host");
    assert_eq!(header.agent_version, "apollo-router@1.10.0");
    assert_eq!(header.runtime_version, "rust");
    assert_eq!(header.uname, "Linux,");
    assert_eq!(header.executable_schema_id, "schema-1");
}

#[test]
fn uname_is_one_text() {
    let uname = Uname {
        sysname: "Linux".to_string(),
        nodename: "host".to_string(),
        release: "6.1".to_string(),
        version: "#1".to_string(),
        machine: "x86_64".to_string(),
    };
    assert_eq!(uname.text(), "Linux, host, 6.1, #1, x86_64,");
}

#[test]
fn windows_tells_less() {
    assert_eq!(windows_uname(None, None, None), "Windows, unknown, unknown, unknown, unknown");
    assert_eq!(
        windows_uname(Some("NT".to_string()), Some("pc".to_string()), Some("11".to_string())),
        "NT, pc, 11, unknown, unknown"
    );
}

#[test]
fn timestamp_is_a_record_of_two_numbers() {
    assert!(timestamp_record(&None).is_none());
    let record = timestamp_record(&Some(Timestamp { seconds: -3, nanos: 500 })).unwrap();
    assert_eq!(record.name, "Timestamp");
    assert_eq!(record.members.len(), 2);
    assert_eq!((record.members[0].name, record.members[0].value), ("seconds", Number::I64(-3)));
    assert_eq!((record.members[1].name, record.members[1].value), ("nanos", Number::I32(500)));
}

#[test]
fn empty_reports_are_not_submitted() {
    assert!(!report(vec![], 0).needs_submission());
    assert!(report(vec![], 1).needs_submission());
    assert!(report(vec![query("q", vec![], vec![])], 0).needs_submission());
}

#[test]
fn traces_of_either_kind_are_found_and_stripped() {
    let kept = report(vec![query("a", vec![vec![1]], vec![]), query("b", vec![], vec![])], 4);
    let (kept, had_traces) = kept.strip_traces(false);
    assert!(had_traces);
    assert_eq!(kept.traces_per_query.entries()[0].1.trace, vec![vec![1]]);

    let stripped =
        report(vec![query("a", vec![vec![1]], vec![]), query("b", vec![], vec![vec![2]])], 4);
    let (stripped, had_traces) = stripped.strip_traces(true);
    assert!(had_traces);
    assert_eq!(stripped.operation_count, 4);
    assert_eq!(stripped.traces_per_query.entries().len(), 2);
    assert_eq!(stripped.traces_per_query.entries()[1].0, "b");
    for (_, entry) in stripped.traces_per_query.entries() {
        assert!(entry.trace.is_empty());
        assert!(entry.internal_traces_contributing_to_stats.is_empty());
        assert_eq!(entry.stats_with_context, vec![vec![9]]);
        assert_eq!(entry.referenced_fields_by_type.entries().len(), 1);
    }
    let (_, had_traces) = stripped.strip_traces(true);
    assert!(!had_traces);
}

#[test]
fn keys_that_occur_twice_are_refused() {
    let entry = |key: &str, value: u32| (key.to_string(), value);
    let repeated = vec![entry("a", 1), entry("b", 2), entry("a", 3)];
    assert!(KeyedEntries::from_entries(repeated).is_none());
    assert!(KeyedEntries::from_entries(vec![entry("a", 1), entry("a", 1)]).is_none());
    let distinct = vec![entry("b", 2), entry("a", 1), entry("", 2)];
    let kept = KeyedEntries::from_entries(distinct).unwrap();
    assert_eq!(*kept.entries(), vec![entry("b", 2), entry("a", 1), entry("", 2)]);
    assert_eq!(kept.into_entries(), vec![entry("b", 2), entry("a", 1), entry("", 2)]);
    assert!(KeyedEntries::<u32>::from_entries(vec![]).unwrap().entries().is_empty());
}

#[test]
fn nothing_is_sent_of_an_empty_report() {
    assert!(Outgoing::new(report(vec![], 0), false).is_none());
    assert!(Outgoing::new(report(vec![], 0), true).is_none());
    assert!(Outgoing::new(report(vec![], 1), true).is_some());
    assert!(Outgoing::new(report(vec![query("q", vec![vec![1]], vec![])], 0), true).is_some());
}

#[test]
fn ignored_traces_are_not_sent_again() {
    let full = || {
        report(vec![query("a", vec![vec![1]], vec![vec![2]]), query("b", vec![], vec![vec![3]])], 7)
    };
    let mut strip = false;

    assert_eq!(posted(full(), strip), b"aT\x01S\x09I\x02User\x08bS\x09I\x03User\x08\x07");
    let attempt = Attempt::first(&Outgoing::new(full(), strip).unwrap(), Ok(())).unwrap();
    let answer = "{\"tracesIgnored\": true}";
    assert!(finish(attempt.settle(response(200, answer), &mut strip)).is_ok());

    assert_eq!(posted(full(), strip), b"aS\x09User\x08bS\x09User\x08\x07");
    let attempt = Attempt::first(&Outgoing::new(full(), strip).unwrap(), Ok(())).unwrap();
    let answer = "{\"tracesIgnored\": false}";
    assert!(finish(attempt.settle(response(200, answer), &mut strip)).is_ok());
    assert_eq!(posted(full(), strip), b"aS\x09User\x08bS\x09User\x08\x07");
}

#[test]
fn traces_are_sent_until_they_are_ignored() {
    let full = || report(vec![query("a", vec![vec![1]], vec![])], 7);
    let mut strip = false;
    for outcome in vec![
        response(200, "{}"),
        response(400, "{\"tracesIgnored\": true}"),
        response(500, "{\"tracesIgnored\": true}"),
        Outcome::NotTransferred("lost".to_string()),
    ] {
        let attempt = Attempt::first(&Outgoing::new(full(), strip).unwrap(), Ok(())).unwrap();
        let _ = attempt.settle(outcome, &mut strip);
        assert_eq!(posted(full(), strip), b"aT\x01S\x09User\x08\x07");
    }
}

#[test]
fn request_carries_the_header_with_the_report() {
    let encode = |header: &ReportHeader, report: &Report| {
        Ok(format!("{} {}", header.agent_version, report.operation_count).into_bytes())
    };
    let request =
        outgoing(true, false).request(&header(), "u", "k", &package(), encode).unwrap();
    assert_eq!(unpacked(&request.body), b"apollo-router@1.10.0 1");
}

#[test]
fn report_that_the_encoder_refuses_is_a_client_error() {
    let refuse = |_: &ReportHeader, _: &Report| Err("too long".to_string());
    let error =
        outgoing(true, false).request(&header(), "u", "k", &package(), refuse).unwrap_err();
    assert!(matches!(error, ApolloExportError::ClientError(text) if text == "too long"));
}

#[test]
fn request_carries_the_compressed_report() {
    let content = b"a report, a report, a report, a report".to_vec();
    let request =
        report_request("https://ingress/", "key", &package(), Ok(content.clone())).unwrap();
    assert_eq!(request.url, "https://ingress/");
    assert_eq!(request.api_key, "key");
    assert_eq!(request.content_encoding, "gzip");
    assert_eq!(request.content_type, "application/protobuf");
    assert_eq!(request.accept, "application/json");
    assert_eq!(request.user_agent, "apollo-router / 1.10.0 usage reporting");
    assert_ne!(request.body, content);
    assert_eq!(request.body[..10], [0x1f, 0x8b, 8, 0, 0, 0, 0, 0, 0, 255]);
    assert_eq!(unpacked(&request.body), content);
}

#[test]
fn empty_content_compresses_to_a_stream_of_its_own() {
    let request = report_request("u", "k", &package(), Ok(vec![])).unwrap();
    assert!(request.body.len() >= 18);
    assert!(unpacked(&request.body).is_empty());
}

#[test]
fn report_that_cannot_be_encoded_is_a_client_error() {
    let error = report_request("u", "k", &package(), Err("too long".to_string())).unwrap_err();
    assert!(matches!(error, ApolloExportError::ClientError(text) if text == "too long"));
    let error = compressed_request("u", "k", &package(), Err("corrupt".to_string())).unwrap_err();
    assert!(matches!(error, ApolloExportError::ClientError(text) if text == "corrupt"));
    assert_eq!(compressed_request("u", "k", &package(), Ok(vec![7])).unwrap().body, vec![7]);
}

#[test]
fn request_that_cannot_be_built_makes_the_ingress_unavailable() {
    let error =
        Attempt::first(&outgoing(true, false), Err("bad header".to_string())).unwrap_err();
    assert!(matches!(error, ApolloExportError::Unavailable(text) if text == "bad header"));
}

#[test]
fn accepted_report_ends_the_submission() {
    for status in vec![200, 204, 302, 399, 600] {
        let mut strip = false;
        assert!(finish(first_attempt(true).settle(response(status, "{}"), &mut strip)).is_ok());
        assert!(!strip);
    }
}

#[test]
fn client_error_ends_the_submission() {
    for status in vec![400, 404, 499] {
        let mut strip = false;
        let body = "{\"tracesIgnored\": true}";
        match finish(first_attempt(true).settle(response(status, body), &mut strip)) {
            Err(ApolloExportError::ClientError(text)) => assert_eq!(text, body),
            other => panic!("unexpected result: {:?}", other),
        }
        assert!(!strip);
    }
}

#[test]
fn lost_answer_is_a_server_error() {
    for status in vec![200, 404, 500] {
        let mut strip = false;
        let lost = Outcome::Response { status, body: Err("cut off".to_string()) };
        match finish(first_attempt(true).settle(lost, &mut strip)) {
            Err(ApolloExportError::ServerError(text)) => assert_eq!(text, "cut off"),
            other => panic!("unexpected result: {:?}", other),
        }
    }
}

#[test]
fn transient_failures_are_retried_with_growing_waits() {
    let mut strip = false;
    let mut attempt = first_attempt(false);
    for (i, delay) in vec![50, 100, 150, 200, 250].into_iter().enumerate() {
        let outcome = if i % 2 == 0 {
            response(500 + 33 * (i as u16 / 2), &format!("failure {}", i))
        } else {
            Outcome::NotTransferred(format!("failure {}", i))
        };
        let pause = wait(attempt.settle(outcome, &mut strip));
        assert_eq!(pause.delay_millis(), delay);
        assert_eq!(pause.attempt(), i as u32 + 1);
        assert_eq!(pause.message(), format!("failure {}", i));
        match pause.resume() {
            Resumed::Execute(again) => {
                assert!(i < 4);
                attempt = again;
            }
            Resumed::Finish(Err(ApolloExportError::Unavailable(text))) => {
                assert_eq!(i, 4);
                assert_eq!(text, "failure 4");
                return;
            }
            other => panic!("unexpected step: {:?}", other),
        }
    }
    panic!("the submission did not end");
}

#[test]
fn late_success_counts() {
    let mut strip = false;
    let pause = wait(first_attempt(true).settle(response(503, "busy"), &mut strip));
    match pause.resume() {
        Resumed::Execute(attempt) => {
            let body = "{\"tracesIgnored\": true}";
            assert!(finish(attempt.settle(response(200, body), &mut strip)).is_ok());
            assert!(strip);
        }
        other => panic!("unexpected step: {:?}", other),
    }
}

#[test]
fn traces_are_stripped_once_they_are_ignored() {
    let cases = vec![
        (true, "{\"tracesIgnored\": true}", true),
        (true, "{\"tracesIgnored\": false}", false),
        (true, "{\"tracesIgnored\": \"true\"}", false),
        (true, "{\"other\": true}", false),
        (true, "[true]", false),
        (true, "true", false),
        (true, "tracesIgnored", false),
        (true, "", false),
        (false, "{\"tracesIgnored\": true}", false),
    ];
    for (has_traces, body, expected) in cases {
        let mut strip = false;
        assert!(finish(first_attempt(has_traces).settle(response(200, body), &mut strip)).is_ok());
        assert_eq!(strip, expected, "{}", body);
    }
}

#[test]
fn stripping_stays() {
    for outcome in vec![
        response(200, "{\"tracesIgnored\": false}"),
        response(404, ""),
        response(503, ""),
        Outcome::NotTransferred("lost".to_string()),
    ] {
        let mut strip = true;
        let _ = first_attempt(true).settle(outcome, &mut strip);
        assert!(strip);
    }
    assert!(strips_from_now_on(true, false, None));
    assert!(strips_from_now_on(false, true, Some(JsonValue::Boolean(true))));
    assert!(!strips_from_now_on(false, true, Some(JsonValue::Boolean(false))));
    assert!(!strips_from_now_on(false, true, Some(JsonValue::Other)));
    assert!(!strips_from_now_on(false, true, None));
    assert!(!strips_from_now_on(false, false, Some(JsonValue::Boolean(true))));
}

#[test]
fn batches_add_up_every_report_in_order() {
    let inputs = vec![
        Input::Received(1),
        Input::Tick,
        Input::Received(2),
        Input::Received(3),
        Input::Tick,
        Input::Tick,
        Input::Received(4),
        Input::Closed,
    ];
    let gather = |mut report: Vec<u32>, single: u32| {
        report.push(single);
        report
    };
    let mut batch: Batch<Vec<u32>> = Batch::new();
    let mut submissions: Vec<Vec<u32>> = vec![];
    for input in inputs {
        match batch.step(input, gather) {
            Step::Wait(next) => batch = next,
            Step::Submit(report, next) => {
                submissions.push(report);
                batch = next;
            }
            Step::SubmitAndStop(report) => {
                submissions.push(report);
                break;
            }
        }
    }
    assert_eq!(submissions, vec![vec![1], vec![2, 3], vec![], vec![4]]);
}

#[test]
fn noop_sender_ignores_reports() {
    let sender: ReportSender<u32> = ReportSender::default();
    assert!(matches!(sender.send(1), Sent::Ignored));
    assert!(matches!(sender.clone().send(1), Sent::Ignored));
}

#[test]
fn sender_queues_reports_beyond_the_buffer() {
    let (channel, mut receiver) = futures::channel::mpsc::channel::<u32>(0);
    let sender = ReportSender::Apollo(channel);
    for report in 0..20 {
        assert!(matches!(sender.send(report), Sent::Queued));
    }
    let copy = sender.clone();
    assert!(matches!(copy.send(20), Sent::Queued));
    drop(sender);
    drop(copy);
    let received: Vec<u32> = futures::executor::block_on(async move {
        let mut received = vec![];
        while let Some(report) = receiver.next().await {
            received.push(report);
        }
        received
    });
    assert_eq!(received, (0..21).collect::<Vec<u32>>());
}

#[test]
fn report_comes_back_when_the_exporter_is_gone() {
    let (channel, receiver) = futures::channel::mpsc::channel::<String>(8);
    drop(receiver);
    let sender = ReportSender::Apollo(channel);
    match sender.send("report".to_string()) {
        Sent::Dropped(report, reason) => {
            assert_eq!(report, "report");
            assert_eq!(reason, "send failed because receiver is gone");
        }
        other => panic!("unexpected: {:?}", other),
    }
}

#[test]
fn answers_of_the_channel_are_told_apart() {
    assert!(matches!(sent::<u32>(Ok(())), Sent::Queued));
    match sent(Err((7u32, "full".to_string()))) {
        Sent::Dropped(report, reason) => {
            assert_eq!(report, 7);
            assert_eq!(reason, "full");
        }
        other => panic!("unexpected: {:?}", other),
    }
}
