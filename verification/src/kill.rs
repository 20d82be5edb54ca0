//! Fault injector: periodically kill and restart the server until
//! cancellation, and fail the whole run if either script fails.

use vstd::prelude::*;
use crate::error::WorkerError;

verus! {

/// What running a shell script produced.
pub enum ScriptEvent {
    /// The script ran to completion; whether its exit status was success.
    Exited { success: bool },
    /// The script could not be spawned or awaited; the rendered cause.
    Failed { detail: String },
}

/// Where the fault injector stands in its cycle.
#[derive(Clone, Copy, PartialEq, Eq, Structural, Debug)]
pub enum KillPhase {
    /// Waiting out the delay between kills.
    Sleeping,
    /// The kill script is running.
    Killing,
    /// The restart script is running.
    Restarting,
    /// A script failed; the cycle is over.
    Finished,
}

/// Drives the kill/restart cycle: sleep, kill, restart, repeat. The
/// surrounding I/O layer sleeps and runs the scripts; every decision about
/// exit statuses and ordering is made here.
pub struct KillWorker {
    kill_script: String,
    restart_script: String,
    kill_delay_millis: u64,
    phase: KillPhase,
    outcome: Option<WorkerError>,
}

impl KillWorker {
    /// The kill script text.
    pub closed spec fn kill_script_spec(&self) -> Seq<char> {
        self.kill_script@
    }

    /// The restart script text.
    pub closed spec fn restart_script_spec(&self) -> Seq<char> {
        self.restart_script@
    }

    /// The delay between kills, in milliseconds.
    pub closed spec fn delay_millis(&self) -> u64 {
        self.kill_delay_millis
    }

    /// The current phase.
    pub closed spec fn phase_spec(&self) -> KillPhase {
        self.phase
    }

    /// The terminal error, once a script has failed.
    pub closed spec fn outcome_spec(&self) -> Option<WorkerError> {
        self.outcome
    }

    /// A failure is recorded exactly when the cycle is over.
    pub open spec fn wf(&self) -> bool {
        self.phase_spec() is Finished <==> self.outcome_spec() is Some
    }

    /// Builds the injector; the first sleep begins at once.
    pub fn new(kill_script: String, restart_script: String, kill_delay_millis: u64) -> (r:
        KillWorker)
        ensures
            r.wf(),
            r.phase_spec() is Sleeping,
            r.kill_script_spec() == kill_script@,
            r.restart_script_spec() == restart_script@,
            r.delay_millis() == kill_delay_millis,
    {
        KillWorker {
            kill_script,
            restart_script,
            kill_delay_millis,
            phase: KillPhase::Sleeping,
            outcome: None,
        }
    }

    /// The delay between kills, in milliseconds.
    pub fn delay(&self) -> (r: u64)
        ensures
            r == self.delay_millis(),
    {
        self.kill_delay_millis
    }

    /// The kill script to run.
    pub fn kill_script(&self) -> (r: &String)
        ensures
            r@ == self.kill_script_spec(),
    {
        &self.kill_script
    }

    /// The restart script to run.
    pub fn restart_script(&self) -> (r: &String)
        ensures
            r@ == self.restart_script_spec(),
    {
        &self.restart_script
    }

    /// The current phase.
    pub fn phase(&self) -> (r: KillPhase)
        ensures
            r == self.phase_spec(),
    {
        self.phase
    }

    /// The sleep ran out: kill next.
    pub fn on_sleep_done(&mut self)
        requires
            old(self).wf(),
            old(self).phase_spec() is Sleeping,
        ensures
            final(self).wf(),
            final(self).phase_spec() is Killing,
            final(self).outcome_spec() is None,
            final(self).kill_script_spec() == old(self).kill_script_spec(),
            final(self).restart_script_spec() == old(self).restart_script_spec(),
            final(self).delay_millis() == old(self).delay_millis(),
    {
        self.phase = KillPhase::Killing;
    }

    /// The kill script finished: restart on success, else the run fails
    /// with `KillFailed`.
    pub fn on_kill_event(&mut self, ev: ScriptEvent)
        requires
            old(self).wf(),
            old(self).phase_spec() is Killing,
        ensures
            final(self).wf(),
            final(self).kill_script_spec() == old(self).kill_script_spec(),
            final(self).restart_script_spec() == old(self).restart_script_spec(),
            final(self).delay_millis() == old(self).delay_millis(),
            ev matches ScriptEvent::Exited { success: true } ==> final(self).phase_spec()
                is Restarting && final(self).outcome_spec() is None,
            ev matches ScriptEvent::Exited { success: false } ==> final(self).phase_spec()
                is Finished && (final(self).outcome_spec() matches Some(e) && (
            e matches WorkerError::KillFailed(d) && d@ == "Exit code != 0"@)),
            ev matches ScriptEvent::Failed { detail } ==> final(self).phase_spec() is Finished && (
            final(self).outcome_spec() matches Some(e) && (e matches WorkerError::KillFailed(d)
                && d == detail)),
    {
        match ev {
            ScriptEvent::Exited { success } => {
                if success {
                    self.phase = KillPhase::Restarting;
                } else {
                    self.outcome = Some(WorkerError::KillFailed("Exit code != 0".to_owned()));
                    self.phase = KillPhase::Finished;
                }
            },
            ScriptEvent::Failed { detail } => {
                self.outcome = Some(WorkerError::KillFailed(detail));
                self.phase = KillPhase::Finished;
            },
        }
    }

    /// The restart script finished: sleep again on success, else the run
    /// fails with `RestartFailed`.
    pub fn on_restart_event(&mut self, ev: ScriptEvent)
        requires
            old(self).wf(),
            old(self).phase_spec() is Restarting,
        ensures
            final(self).wf(),
            final(self).kill_script_spec() == old(self).kill_script_spec(),
            final(self).restart_script_spec() == old(self).restart_script_spec(),
            final(self).delay_millis() == old(self).delay_millis(),
            ev matches ScriptEvent::Exited { success: true } ==> final(self).phase_spec()
                is Sleeping && final(self).outcome_spec() is None,
            ev matches ScriptEvent::Exited { success: false } ==> final(self).phase_spec()
                is Finished && (final(self).outcome_spec() matches Some(e) && (
            e matches WorkerError::RestartFailed(d) && d@ == "Exit code != 0"@)),
            ev matches ScriptEvent::Failed { detail } ==> final(self).phase_spec() is Finished && (
            final(self).outcome_spec() matches Some(e) && (
            e matches WorkerError::RestartFailed(d) && d == detail)),
    {
        match ev {
            ScriptEvent::Exited { success } => {
                if success {
                    self.phase = KillPhase::Sleeping;
                } else {
                    self.outcome = Some(WorkerError::RestartFailed("Exit code != 0".to_owned()));
                    self.phase = KillPhase::Finished;
                }
            },
            ScriptEvent::Failed { detail } => {
                self.outcome = Some(WorkerError::RestartFailed(detail));
                self.phase = KillPhase::Finished;
            },
        }
    }

    /// Cancellation ends the cycle quietly: a worker stopped by
    /// cancellation alone reports success, never an error.
    pub fn on_cancel(self) -> (r: Result<(), WorkerError>)
        requires
            self.wf(),
            !(self.phase_spec() is Finished),
        ensures
            r is Ok,
    {
        Ok(())
    }

    /// The error a failed script left behind.
    pub fn take_failure(self) -> (r: WorkerError)
        requires
            self.wf(),
            self.phase_spec() is Finished,
        ensures
            Some(r) == self.outcome_spec(),
    {
        self.outcome.unwrap()
    }
}

} // verus!
