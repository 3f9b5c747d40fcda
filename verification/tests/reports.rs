use papertrail_archive::event::SchemaFault;
use papertrail_archive::report::{
    fault_string, kind_string, missing_directory_message, status_string, Failure, FailureKind,
    Outcome, ReportLine, RunResult,
};
use papertrail_archive::transcode::TranscodeError;

fn failed(key: &str, kind: FailureKind, detail: &str) -> Outcome {
    Outcome::Failure {
        key: key.to_string(),
        reason: Failure { kind, detail: detail.to_string() },
    }
}

#[test]
fn status_has_its_number_and_its_name() {
    assert_eq!(status_string(404), "404 Not Found");
    assert_eq!(status_string(200), "200 OK");
    assert_eq!(status_string(503), "503 Service Unavailable");
    assert_eq!(status_string(418), "418 I'm a teapot");
    assert_eq!(status_string(599), "599 <unknown status code>");
    assert_eq!(status_string(100), "100 Continue");
    assert_eq!(status_string(999), "999 <unknown status code>");
}

#[test]
fn number_that_is_no_status_is_written_alone() {
    assert_eq!(status_string(99), "99");
    assert_eq!(status_string(0), "0");
    assert_eq!(status_string(1000), "1000");
    assert_eq!(status_string(u16::MAX), "65535");
}

#[test]
fn success_line_names_the_key() {
    let line = Outcome::Success { key: String::from("2024-01-05-07") }.report_line();
    assert_eq!(line, ReportLine { error: false, text: String::from("Downloaded 2024-01-05-07") });
}

#[test]
fn failure_line_names_the_key_and_the_reason() {
    let text = |o: Outcome| {
        let line = o.report_line();
        assert!(line.error);
        line.text
    };
    assert_eq!(
        text(failed("k", FailureKind::BadResponse { status: 500 }, "")),
        "Error: Failed to download k: 500 Internal Server Error"
    );
    assert_eq!(
        text(failed("k", FailureKind::Transport, "connection reset")),
        "Error: Failed to download k: request failed: connection reset"
    );
    assert_eq!(
        text(failed("k", FailureKind::Decompression, "unexpected end of file")),
        "Error: Failed to download k: not a complete gzip stream: unexpected end of file"
    );
    assert_eq!(
        text(failed("k", FailureKind::Unreadable, "invalid utf-8")),
        "Error: Failed to download k: not tab-delimited text: invalid utf-8"
    );
    assert_eq!(
        text(failed("k", FailureKind::Schema { row: 12, fault: SchemaFault::BadId }, "")),
        "Error: Failed to download k: record 12: id is not a number of 128 bits"
    );
    assert_eq!(
        text(failed("k", FailureKind::Unwritable, "")),
        "Error: Failed to download k: record cannot be written"
    );
    assert_eq!(
        text(failed("k", FailureKind::Filesystem, "disk full")),
        "Error: Failed to download k: file error: disk full"
    );
    assert_eq!(
        text(failed("k", FailureKind::OutOfTurn, "")),
        "Error: Failed to download k: event out of turn"
    );
}

#[test]
fn every_fault_has_words() {
    assert_eq!(fault_string(SchemaFault::FieldCount), "expected 10 fields");
    assert_eq!(fault_string(SchemaFault::BadId), "id is not a number of 128 bits");
    assert_eq!(fault_string(SchemaFault::BadSourceId), "source_id is not a number of 32 bits");
    assert_eq!(fault_string(SchemaFault::BadSourceIp), "source_ip is not an IPv4 address");
    assert_eq!(
        kind_string(FailureKind::Schema { row: 0, fault: SchemaFault::FieldCount }),
        "record 0: expected 10 fields"
    );
    assert_eq!(kind_string(FailureKind::BadResponse { status: 403 }), "403 Forbidden");
}

#[test]
fn transcoding_errors_become_failures() {
    assert_eq!(
        Failure::from_transcode(TranscodeError::Unreadable(String::from("bad bytes"))),
        Failure { kind: FailureKind::Unreadable, detail: String::from("bad bytes") }
    );
    assert_eq!(
        Failure::from_transcode(TranscodeError::Schema { row: 3, fault: SchemaFault::BadSourceId }),
        Failure {
            kind: FailureKind::Schema { row: 3, fault: SchemaFault::BadSourceId },
            detail: String::new()
        }
    );
    assert_eq!(
        Failure::from_transcode(TranscodeError::Unwritable(String::from("w"))),
        Failure { kind: FailureKind::Unwritable, detail: String::from("w") }
    );
    assert_eq!(
        Failure::of_kind(FailureKind::Transport).words(),
        "request failed"
    );
}

#[test]
fn missing_directory_is_named() {
    assert_eq!(missing_directory_message("./out"), "Couldn't find directory: ./out");
    assert_eq!(missing_directory_message(""), "Couldn't find directory: ");
}

#[test]
fn result_counts_outcomes_in_the_order_they_came() {
    let mut result = RunResult::new();
    assert_eq!(result.len(), 0);
    assert_eq!(result.failures(), 0);
    assert_eq!(result.successes(), 0);
    assert!(result.all_succeeded());
    assert!(result.outcomes().is_empty());

    let line = result.record(Outcome::Success { key: String::from("b") });
    assert_eq!(line.text, "Downloaded b");
    assert!(result.all_succeeded());
    let line = result.record(failed("a", FailureKind::Filesystem, "denied"));
    assert_eq!(line.text, "Error: Failed to download a: file error: denied");
    assert!(line.error);
    result.record(Outcome::Success { key: String::from("b") });
    result.record(failed("c", FailureKind::Transport, ""));

    assert_eq!(result.len(), 4);
    assert_eq!(result.failures(), 2);
    assert_eq!(result.successes(), 2);
    assert!(!result.all_succeeded());
    let keys: Vec<&str> = result.outcomes().iter().map(|o| o.key().as_str()).collect();
    assert_eq!(keys, vec!["b", "a", "b", "c"]);
}

#[test]
fn run_in_which_every_download_fails_still_has_a_result() {
    let mut result = RunResult::new();
    for key in ["x", "y", "z"] {
        result.record(failed(key, FailureKind::BadResponse { status: 404 }, ""));
    }
    assert_eq!(result.len(), 3);
    assert_eq!(result.failures(), 3);
    assert_eq!(result.successes(), 0);
    assert!(!result.all_succeeded());
}
