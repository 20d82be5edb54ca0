use sparql_bench::WorkerBehaviour;
use sparql_bench::error::{HttpFailure, WorkerError};
use sparql_bench::update::{
    classify_issue, classify_read, Endpoint, HttpVerb, IssueEvent, IssueStep, Method, ReadEvent,
    ReadStep, UpdateOperation, UpdateWorker, Validate, WriterPhase,
};

fn op(endpoint: Endpoint, method: Method, body: &str, query: &str, expected: &str) -> UpdateOperation {
    UpdateOperation {
        endpoint,
        query_params: vec![("graph".to_string(), "urn:g".to_string())],
        headers: vec![("Content-Type".to_string(), "application/n-triples".to_string())],
        method,
        body: body.to_string(),
        validate: Validate { query: query.to_string(), expected: expected.to_string() },
    }
}

fn simple_script(n: usize) -> Vec<UpdateOperation> {
    (0..n)
        .map(|i| {
            op(
                Endpoint::Update,
                Method::Post,
                &format!("INSERT DATA {{ <s> <p> <o{i}> }}"),
                &format!("CONSTRUCT {{ <s> ?p ?o }} WHERE {{ <s> ?p ?o }} # {i}"),
                &format!("<s> <p> <o{i}> .\n"),
            )
        })
        .collect()
}

fn worker(ops: Vec<UpdateOperation>, verbose: bool, behav: WorkerBehaviour) -> UpdateWorker {
    UpdateWorker::new(
        ops,
        "http://store/query".to_string(),
        "http://store/update".to_string(),
        "http://store/gsp".to_string(),
        verbose,
        behav,
    )
    .expect("non-empty script")
}

#[test]
fn empty_script_is_rejected() {
    let r = UpdateWorker::new(
        Vec::new(),
        "http://store/query".to_string(),
        "http://store/update".to_string(),
        "http://store/gsp".to_string(),
        false,
        WorkerBehaviour::ReportConnectionError,
    );
    assert!(r.is_none());
}

#[test]
fn happy_path_completes_all_operations() {
    let mut w = worker(simple_script(3), false, WorkerBehaviour::ReportConnectionError);
    let mut mutations_issued = 0;
    loop {
        match w.phase() {
            WriterPhase::Issuing => {
                let op_index = mutations_issued;
                mutations_issued += 1;
                assert!(op_index < 3, "no operation may be issued twice");
                w.on_issue_event(IssueEvent::Response { status: 204 });
            }
            WriterPhase::Verifying => {
                let i = mutations_issued - 1;
                w.on_read_event(ReadEvent::Body {
                    status: 200,
                    text: format!("<s> <p> <o{i}> ."),
                });
            }
            WriterPhase::Finished => break,
        }
    }
    assert_eq!(mutations_issued, 3, "every mutation issued exactly once");
    assert!(w.take_result().is_ok());
}

#[test]
fn state_mismatch_reports_invalid_state_with_update_id() {
    let mut w = worker(simple_script(4), false, WorkerBehaviour::ReportConnectionError);
    let mut issued = 0;
    loop {
        match w.phase() {
            WriterPhase::Issuing => {
                issued += 1;
                w.on_issue_event(IssueEvent::Response { status: 200 });
            }
            WriterPhase::Verifying => {
                let i = issued - 1;
                let text = if i == 2 {
                    "<s> <p> <something-else> .".to_string()
                } else {
                    format!("<s> <p> <o{i}> .")
                };
                w.on_read_event(ReadEvent::Body { status: 200, text });
            }
            WriterPhase::Finished => break,
        }
    }
    match w.take_result() {
        Err(WorkerError::InvalidState { update_id, verbose_info }) => {
            assert_eq!(update_id, 2);
            assert!(verbose_info.is_none());
        }
        other => panic!("expected InvalidState, got {:?}", other.is_ok()),
    }
}

#[test]
fn state_mismatch_verbose_carries_canonical_states() {
    let ops = vec![op(
        Endpoint::Update,
        Method::Post,
        "INSERT DATA { <s> <p> <o> }",
        "CONSTRUCT { <s> ?p ?o } WHERE { <s> ?p ?o }",
        "<b> <b> <b> .\n<a> <a> <a> .",
    )];
    let mut w = worker(ops, true, WorkerBehaviour::ReportConnectionError);
    w.on_issue_event(IssueEvent::Response { status: 200 });
    w.on_read_event(ReadEvent::Body { status: 200, text: "  <c> <c> <c> .  ".to_string() });
    match w.take_result() {
        Err(WorkerError::InvalidState { update_id, verbose_info }) => {
            assert_eq!(update_id, 0);
            let vi = verbose_info.expect("verbose payload");
            // Both sides are canonical: trimmed, sorted, newline-terminated.
            assert_eq!(vi.expected, "<a> <a> <a> .\n<b> <b> <b> .\n");
            assert_eq!(vi.actual, "<c> <c> <c> .\n");
            assert_eq!(vi.query, "CONSTRUCT { <s> ?p ?o } WHERE { <s> ?p ?o }");
        }
        other => panic!("expected InvalidState, got {:?}", other.is_ok()),
    }
}

#[test]
fn reordered_state_is_no_mismatch() {
    let ops = vec![op(
        Endpoint::Update,
        Method::Post,
        "INSERT DATA { <a> <b> <c> }",
        "CONSTRUCT { <a> ?p ?o } WHERE { <a> ?p ?o }",
        "<a> <b> <c> .\n<a> <d> <e> .\n",
    )];
    let mut w = worker(ops, false, WorkerBehaviour::ReportConnectionError);
    w.on_issue_event(IssueEvent::Response { status: 200 });
    w.on_read_event(ReadEvent::Body {
        status: 200,
        text: "<a> <d> <e> .\n<a> <b> <c> .\n".to_string(),
    });
    assert!(w.take_result().is_ok());
}

#[test]
fn transient_storm_eventually_completes() {
    let mut w = worker(simple_script(2), false, WorkerBehaviour::IgnoreConnectionError);
    let mut rounds = 0;
    loop {
        match w.phase() {
            WriterPhase::Issuing => {
                rounds += 1;
                if rounds % 2 == 1 {
                    // The mock closes the connection on every other request.
                    w.on_issue_event(IssueEvent::SendFailed {
                        detail: "connection reset".to_string(),
                    });
                } else {
                    w.on_issue_event(IssueEvent::Response { status: 200 });
                }
            }
            WriterPhase::Verifying => {
                rounds += 1;
                if rounds % 2 == 1 {
                    w.on_read_event(ReadEvent::SendFailed {
                        detail: "connection reset".to_string(),
                    });
                } else {
                    let i = if rounds <= 4 { 0 } else { 1 };
                    w.on_read_event(ReadEvent::Body {
                        status: 200,
                        text: format!("<s> <p> <o{i}> ."),
                    });
                }
            }
            WriterPhase::Finished => break,
        }
    }
    assert!(w.take_result().is_ok(), "the writer must retry through the storm");
}

#[test]
fn protocol_error_fails_under_both_behaviours() {
    for behav in [
        WorkerBehaviour::IgnoreConnectionError,
        WorkerBehaviour::ReportConnectionError,
    ] {
        let mut w = worker(simple_script(1), false, behav);
        w.on_issue_event(IssueEvent::Response { status: 500 });
        match w.take_result() {
            Err(WorkerError::UpdateFailed { update_id, err, verbose_info }) => {
                assert_eq!(update_id, 0);
                assert!(matches!(err, HttpFailure::Status(500)));
                assert!(verbose_info.is_none());
            }
            other => panic!("expected UpdateFailed, got {:?}", other.is_ok()),
        }
    }
}

#[test]
fn transport_error_is_fatal_when_reported() {
    let mut w = worker(simple_script(1), true, WorkerBehaviour::ReportConnectionError);
    w.on_issue_event(IssueEvent::SendFailed { detail: "refused".to_string() });
    match w.take_result() {
        Err(WorkerError::UpdateFailed { update_id, err, verbose_info }) => {
            assert_eq!(update_id, 0);
            assert!(matches!(err, HttpFailure::Transport(d) if d == "refused"));
            let vi = verbose_info.expect("verbose payload");
            assert_eq!(vi.query, "INSERT DATA { <s> <p> <o0> }");
        }
        other => panic!("expected UpdateFailed, got {:?}", other.is_ok()),
    }
}

#[test]
fn verify_transport_error_reports_update_verify_failed() {
    let mut w = worker(simple_script(1), false, WorkerBehaviour::ReportConnectionError);
    w.on_issue_event(IssueEvent::Response { status: 200 });
    w.on_read_event(ReadEvent::BodyFailed { status: 200, detail: "body cut short".to_string() });
    match w.take_result() {
        Err(WorkerError::UpdateVerifyFailed { update_id, err }) => {
            assert_eq!(update_id, 0);
            assert!(matches!(err, HttpFailure::Transport(d) if d == "body cut short"));
        }
        other => panic!("expected UpdateVerifyFailed, got {:?}", other.is_ok()),
    }
}

#[test]
fn classify_issue_covers_all_cases() {
    let ig = WorkerBehaviour::IgnoreConnectionError;
    let rep = WorkerBehaviour::ReportConnectionError;
    assert!(matches!(classify_issue(ig, IssueEvent::Response { status: 200 }), IssueStep::Issued));
    assert!(matches!(classify_issue(rep, IssueEvent::Response { status: 299 }), IssueStep::Issued));
    assert!(matches!(
        classify_issue(ig, IssueEvent::Response { status: 500 }),
        IssueStep::Failed(HttpFailure::Status(500))
    ));
    assert!(matches!(
        classify_issue(rep, IssueEvent::Response { status: 404 }),
        IssueStep::Failed(HttpFailure::Status(404))
    ));
    assert!(matches!(
        classify_issue(ig, IssueEvent::SendFailed { detail: "x".to_string() }),
        IssueStep::Retry
    ));
    assert!(matches!(
        classify_issue(rep, IssueEvent::SendFailed { detail: "x".to_string() }),
        IssueStep::Failed(HttpFailure::Transport(_))
    ));
}

#[test]
fn classify_read_normalizes_the_body() {
    let rep = WorkerBehaviour::ReportConnectionError;
    match classify_read(rep, ReadEvent::Body { status: 200, text: "b\na".to_string() }) {
        ReadStep::State(s) => assert_eq!(s, "a\nb\n"),
        _ => panic!("expected a state"),
    }
    assert!(matches!(
        classify_read(rep, ReadEvent::Body { status: 503, text: String::new() }),
        ReadStep::Failed(HttpFailure::Status(503))
    ));
    assert!(matches!(
        classify_read(
            WorkerBehaviour::IgnoreConnectionError,
            ReadEvent::BodyFailed { status: 200, detail: "cut".to_string() }
        ),
        ReadStep::Retry
    ));
}

#[test]
fn issue_request_is_shaped_by_the_operation() {
    let mut ops = simple_script(1);
    ops[0].endpoint = Endpoint::Gsp;
    ops[0].method = Method::Put;
    let w = worker(ops, false, WorkerBehaviour::ReportConnectionError);
    let r = w.issue_request();
    assert!(matches!(r.verb, HttpVerb::Put));
    assert_eq!(r.url, "http://store/gsp");
    assert_eq!(r.headers, vec![(
        "Content-Type".to_string(),
        "application/n-triples".to_string()
    )]);
    assert_eq!(r.query_params, vec![("graph".to_string(), "urn:g".to_string())]);
    assert_eq!(r.body, "INSERT DATA { <s> <p> <o0> }");
}

#[test]
fn verify_request_asks_for_n_triples() {
    let mut w = worker(simple_script(1), false, WorkerBehaviour::ReportConnectionError);
    w.on_issue_event(IssueEvent::Response { status: 200 });
    let r = w.verify_request();
    assert!(matches!(r.verb, HttpVerb::Get));
    assert_eq!(r.url, "http://store/query");
    assert_eq!(r.headers, vec![(
        "Accept".to_string(),
        "application/n-triples".to_string()
    )]);
    assert_eq!(r.query_params.len(), 1);
    assert_eq!(r.query_params[0].0, "query");
    assert_eq!(
        r.query_params[0].1,
        "CONSTRUCT { <s> ?p ?o } WHERE { <s> ?p ?o } # 0"
    );
    assert_eq!(r.body, "");
}

#[test]
fn normalize_canonicalizes_the_expectation() {
    let o = op(
        Endpoint::Update,
        Method::Post,
        "body",
        "query",
        "  <b> <b> <b> .\n<a> <a> <a> .  ",
    );
    let n = o.normalize();
    assert_eq!(n.validate.expected, "<a> <a> <a> .\n<b> <b> <b> .\n");
    assert_eq!(n.validate.query, "query");
    assert_eq!(n.body, "body");
}

#[test]
fn verification_never_precedes_its_mutation() {
    let mut w = worker(simple_script(3), false, WorkerBehaviour::ReportConnectionError);
    let mut protocol: Vec<(char, usize)> = Vec::new();
    let mut current = 0;
    loop {
        match w.phase() {
            WriterPhase::Issuing => {
                protocol.push(('i', current));
                w.on_issue_event(IssueEvent::Response { status: 200 });
            }
            WriterPhase::Verifying => {
                protocol.push(('v', current));
                w.on_read_event(ReadEvent::Body {
                    status: 200,
                    text: format!("<s> <p> <o{current}> ."),
                });
                current += 1;
            }
            WriterPhase::Finished => break,
        }
    }
    // Strictly ordered: issue of op i, then its verification, then op i+1.
    assert_eq!(
        protocol,
        vec![('i', 0), ('v', 0), ('i', 1), ('v', 1), ('i', 2), ('v', 2)]
    );
    assert!(w.take_result().is_ok());
}
