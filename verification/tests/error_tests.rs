use sparql_bench::error::{
    HttpFailure, InvalidStateVerboseInfo, UpdateFailedVerboseInfo, WorkerError,
};
use sparql_bench::text::dec_str;

#[test]
fn decimal_rendering_is_exact() {
    assert_eq!(dec_str(0), "0");
    assert_eq!(dec_str(7), "7");
    assert_eq!(dec_str(907), "907");
    assert_eq!(dec_str(18_446_744_073_709_551_615), "18446744073709551615");
}

#[test]
fn http_failure_messages() {
    assert_eq!(HttpFailure::Status(500).describe(), "HTTP status 500");
    assert_eq!(
        HttpFailure::Transport("connection reset by peer".to_string()).describe(),
        "connection reset by peer"
    );
}

#[test]
fn kill_and_restart_messages() {
    assert_eq!(
        WorkerError::KillFailed("boom".to_string()).describe(),
        "Unable to kill server. Error: boom"
    );
    assert_eq!(
        WorkerError::RestartFailed("no such file".to_string()).describe(),
        "Unable to restart server. Error: no such file"
    );
}

#[test]
fn update_failed_message_with_and_without_payload() {
    let bare = WorkerError::UpdateFailed {
        update_id: 1,
        err: HttpFailure::Transport("conn reset".to_string()),
        verbose_info: None,
    };
    assert_eq!(bare.describe(), "Unable to execute update 1. Error: conn reset");
    let verbose = WorkerError::UpdateFailed {
        update_id: 1,
        err: HttpFailure::Transport("conn reset".to_string()),
        verbose_info: Some(UpdateFailedVerboseInfo { query: "INSERT DATA { <a> <b> <c> }".to_string() }),
    };
    assert_eq!(
        verbose.describe(),
        "Unable to execute update 1. Error: conn reset\nQuery: INSERT DATA { <a> <b> <c> }"
    );
}

#[test]
fn update_verify_failed_message() {
    let e = WorkerError::UpdateVerifyFailed { update_id: 3, err: HttpFailure::Status(502) };
    assert_eq!(
        e.describe(),
        "Unable to execute verification query for update 3. Error: HTTP status 502"
    );
}

#[test]
fn read_failed_message() {
    let e = WorkerError::ReadFailed {
        query: "SELECT * WHERE { ?s ?p ?o }".to_string(),
        err: HttpFailure::Transport("timed out".to_string()),
    };
    assert_eq!(
        e.describe(),
        "A reader was unable to execute a query. Error: timed out\nQuery: SELECT * WHERE { ?s ?p ?o }\n"
    );
}

#[test]
fn invalid_state_message_without_payload() {
    let e = WorkerError::InvalidState { update_id: 7, verbose_info: None };
    assert_eq!(e.describe(), "Unexpected result at update 7");
}

#[test]
fn invalid_state_message_renders_a_line_diff() {
    let expected = "<a> <a> <a> .\n";
    let actual = "<b> <b> <b> .\n";
    let e = WorkerError::InvalidState {
        update_id: 2,
        verbose_info: Some(InvalidStateVerboseInfo {
            query: "CONSTRUCT { ?s ?p ?o } WHERE { ?s ?p ?o }".to_string(),
            expected: expected.to_string(),
            actual: actual.to_string(),
        }),
    };
    let rendered_diff = format!("{}", prettydiff::diff_lines(expected, actual));
    let want = format!(
        "Unexpected result at update 2\nQuery:\nCONSTRUCT {{ ?s ?p ?o }} WHERE {{ ?s ?p ?o }}\n\nDifference between expected and actual state:\n{rendered_diff}\n"
    );
    assert_eq!(e.describe(), want);
}

#[test]
fn invalid_state_message_omits_the_diff_for_equal_states() {
    let e = WorkerError::InvalidState {
        update_id: 4,
        verbose_info: Some(InvalidStateVerboseInfo {
            query: "q".to_string(),
            expected: "same".to_string(),
            actual: "same".to_string(),
        }),
    };
    assert_eq!(e.describe(), "Unexpected result at update 4");
}
