use sparql_bench::kill::{KillPhase, KillWorker, ScriptEvent};
use sparql_bench::supervisor::{RunMode, RunPhase, Supervisor};
use sparql_bench::error::WorkerError;

#[test]
fn happy_path_run_exits_zero() {
    // Two writers, two readers, no fault injector.
    let mut s = Supervisor::new(RunMode::Verify, 2, 2, false);
    for _ in 0..5 {
        s.on_arrival();
    }
    s.release();
    assert!(matches!(s.phase(), RunPhase::Running));
    assert!(!s.is_cancelled());
    s.on_writer_done(false);
    assert!(!s.is_cancelled(), "readers keep running while writers work");
    s.on_writer_done(false);
    assert!(s.is_cancelled(), "the last writer's report triggers shutdown");
    assert!(matches!(s.phase(), RunPhase::Draining));
    s.on_reader_done();
    s.on_reader_done();
    assert!(matches!(s.phase(), RunPhase::Finished));
    assert_eq!(s.exit_code(), 0);
}

#[test]
fn writer_error_makes_the_run_fail() {
    let mut s = Supervisor::new(RunMode::Verify, 1, 1, false);
    for _ in 0..3 {
        s.on_arrival();
    }
    s.release();
    s.on_writer_done(true);
    s.on_reader_done();
    assert_eq!(s.exit_code(), 1);
}

#[test]
fn reader_failures_do_not_change_the_exit_code() {
    // A reader failure is logged and its report skipped, but the run's
    // exit code only answers for writers and the fault injector.
    let mut s = Supervisor::new(RunMode::Verify, 1, 2, false);
    for _ in 0..4 {
        s.on_arrival();
    }
    s.release();
    s.on_writer_done(false);
    s.on_reader_done();
    s.on_reader_done();
    assert_eq!(s.exit_code(), 0);
}

#[test]
fn stress_run_cancels_on_the_timer() {
    let mut s = Supervisor::new(RunMode::Stress, 0, 3, false);
    for _ in 0..4 {
        s.on_arrival();
    }
    s.release();
    assert!(!s.is_cancelled());
    s.on_timer();
    assert!(s.is_cancelled());
    s.on_reader_done();
    s.on_reader_done();
    s.on_reader_done();
    assert_eq!(s.exit_code(), 0);
}

#[test]
fn killer_failure_cancels_everyone_and_fails_the_run() {
    let mut k = KillWorker::new("kill.sh".to_string(), "restart.sh".to_string(), 10_000);
    assert!(matches!(k.phase(), KillPhase::Sleeping));
    k.on_sleep_done();
    assert!(matches!(k.phase(), KillPhase::Killing));
    // The kill script exits with status 2.
    k.on_kill_event(ScriptEvent::Exited { success: false });
    assert!(matches!(k.phase(), KillPhase::Finished));
    let failure = k.take_failure();
    assert!(matches!(&failure, WorkerError::KillFailed(d) if d == "Exit code != 0"));

    let mut s = Supervisor::new(RunMode::Verify, 1, 1, true);
    for _ in 0..4 {
        s.on_arrival();
    }
    s.release();
    s.on_killer_done(true);
    assert!(s.is_cancelled(), "a fault-injector failure cancels everyone");
    s.on_reader_done();
    assert_eq!(s.exit_code(), 1);
}

#[test]
fn kill_cycle_loops_until_cancelled() {
    let mut k = KillWorker::new("kill.sh".to_string(), "restart.sh".to_string(), 250);
    assert_eq!(k.delay(), 250);
    assert_eq!(k.kill_script().as_str(), "kill.sh");
    assert_eq!(k.restart_script().as_str(), "restart.sh");
    for _ in 0..3 {
        k.on_sleep_done();
        k.on_kill_event(ScriptEvent::Exited { success: true });
        assert!(matches!(k.phase(), KillPhase::Restarting));
        k.on_restart_event(ScriptEvent::Exited { success: true });
        assert!(matches!(k.phase(), KillPhase::Sleeping));
    }
    // Cancellation during the sleep ends the cycle with success.
    assert!(k.on_cancel().is_ok());
}

#[test]
fn restart_failure_is_reported_as_such() {
    let mut k = KillWorker::new("kill.sh".to_string(), "restart.sh".to_string(), 10);
    k.on_sleep_done();
    k.on_kill_event(ScriptEvent::Exited { success: true });
    k.on_restart_event(ScriptEvent::Failed { detail: "no such file".to_string() });
    let failure = k.take_failure();
    assert!(matches!(&failure, WorkerError::RestartFailed(d) if d == "no such file"));
}

#[test]
fn verify_run_without_writers_drains_at_once() {
    let mut s = Supervisor::new(RunMode::Verify, 0, 1, false);
    s.on_arrival();
    s.on_arrival();
    s.release();
    s.on_all_writers_done();
    assert!(s.is_cancelled());
    s.on_reader_done();
    assert_eq!(s.exit_code(), 0);
}
