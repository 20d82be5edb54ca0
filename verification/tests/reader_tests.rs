use sparql_bench::WorkerBehaviour;
use sparql_bench::error::{HttpFailure, WorkerError};
use sparql_bench::query_gen::{FileSourceQueryGenerator, RandomLimitSelectStartQueryGenerator};
use sparql_bench::reader::{classify_measure, MeasureEvent, MeasureStep, RandomReadWorker};

fn reader_with_catalog() -> RandomReadWorker<FileSourceQueryGenerator> {
    let g = FileSourceQueryGenerator::new("a\nb\nc\n").expect("catalog");
    RandomReadWorker::new(g, "http://store/query".to_string(), WorkerBehaviour::ReportConnectionError)
}

#[test]
fn qps_report_holds_count_and_sum() {
    let mut w = reader_with_catalog();
    let ok = |nanos: u64| MeasureEvent::Completed { status: 200, nanos };
    assert!(w.on_measure_event(Some(1), "b".to_string(), ok(2_000)).is_ok());
    assert!(w.on_measure_event(Some(1), "b".to_string(), ok(4_000)).is_ok());
    assert!(w.on_measure_event(Some(0), "a".to_string(), ok(7_000)).is_ok());
    let report = w.finish();
    // Sorted by stable index; QPS per bucket is samples / total seconds.
    assert_eq!(report.len(), 2);
    assert_eq!(report[0].0, 0);
    assert_eq!(report[0].1.samples, 1);
    assert_eq!(report[0].1.total_nanos, 7_000);
    assert_eq!(report[1].0, 1);
    assert_eq!(report[1].1.samples, 2);
    assert_eq!(report[1].1.total_nanos, 6_000);
}

#[test]
fn unidentified_samples_are_not_reported() {
    let g = RandomLimitSelectStartQueryGenerator;
    let mut w = RandomReadWorker::new(
        g,
        "http://store/query".to_string(),
        WorkerBehaviour::ReportConnectionError,
    );
    let r = w.on_measure_event(None, "q".to_string(), MeasureEvent::Completed {
        status: 200,
        nanos: 1_000,
    });
    assert!(r.is_ok());
    let report = w.finish();
    assert!(report.is_empty(), "synthetic queries have no stable identity");
}

#[test]
fn transport_loss_drops_the_sample_when_ignored() {
    let g = FileSourceQueryGenerator::new("a\n").expect("catalog");
    let mut w = RandomReadWorker::new(
        g,
        "http://store/query".to_string(),
        WorkerBehaviour::IgnoreConnectionError,
    );
    let r = w.on_measure_event(Some(0), "a".to_string(), MeasureEvent::SendFailed {
        detail: "reset".to_string(),
    });
    assert!(r.is_ok());
    let report = w.finish();
    assert!(report.is_empty());
}

#[test]
fn transport_loss_fails_the_reader_when_reported() {
    let mut w = reader_with_catalog();
    let r = w.on_measure_event(Some(0), "a".to_string(), MeasureEvent::SendFailed {
        detail: "reset".to_string(),
    });
    match r {
        Err(WorkerError::ReadFailed { query, err }) => {
            assert_eq!(query, "a");
            assert!(matches!(err, HttpFailure::Transport(d) if d == "reset"));
        }
        _ => panic!("expected ReadFailed"),
    }
}

#[test]
fn protocol_error_fails_the_reader_whatever_the_behaviour() {
    for behav in [
        WorkerBehaviour::IgnoreConnectionError,
        WorkerBehaviour::ReportConnectionError,
    ] {
        let g = FileSourceQueryGenerator::new("a\n").expect("catalog");
        let mut w = RandomReadWorker::new(g, "http://store/query".to_string(), behav);
        let r = w.on_measure_event(Some(0), "a".to_string(), MeasureEvent::Completed {
            status: 500,
            nanos: 10,
        });
        match r {
            Err(WorkerError::ReadFailed { err, .. }) => {
                assert!(matches!(err, HttpFailure::Status(500)));
            }
            _ => panic!("expected ReadFailed"),
        }
    }
}

#[test]
fn cancellation_returns_the_report_as_success() {
    let mut w = reader_with_catalog();
    let ok = |nanos: u64| MeasureEvent::Completed { status: 200, nanos };
    w.on_measure_event(Some(2), "c".to_string(), ok(5)).unwrap();
    let r = w.on_cancel();
    let report = r.expect("cancellation is success, not an error");
    assert_eq!(report.len(), 1);
    assert_eq!(report[0].0, 2);
    assert_eq!(report[0].1.samples, 1);
    assert_eq!(report[0].1.total_nanos, 5);
}

#[test]
fn classify_measure_covers_all_cases() {
    let ig = WorkerBehaviour::IgnoreConnectionError;
    let rep = WorkerBehaviour::ReportConnectionError;
    assert!(matches!(
        classify_measure(rep, MeasureEvent::Completed { status: 204, nanos: 9 }),
        MeasureStep::Sample(9)
    ));
    assert!(matches!(
        classify_measure(ig, MeasureEvent::Completed { status: 404, nanos: 9 }),
        MeasureStep::Fail(HttpFailure::Status(404))
    ));
    assert!(matches!(
        classify_measure(ig, MeasureEvent::BodyFailed { status: 200, detail: "x".to_string() }),
        MeasureStep::Drop
    ));
    assert!(matches!(
        classify_measure(rep, MeasureEvent::BodyFailed { status: 200, detail: "x".to_string() }),
        MeasureStep::Fail(HttpFailure::Transport(_))
    ));
    assert!(matches!(
        classify_measure(ig, MeasureEvent::SendFailed { detail: "x".to_string() }),
        MeasureStep::Drop
    ));
}
