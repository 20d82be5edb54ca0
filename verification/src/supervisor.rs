//! Supervisor: synchronized start across all workers, routing of
//! completion signals, ordered shutdown, and the run's exit code.

use vstd::prelude::*;
use crate::kill::ScriptEvent;

verus! {

/// Which workload the run performs.
#[derive(Clone, Copy, PartialEq, Eq, Structural, Debug)]
pub enum RunMode {
    /// Read-only throughput measurement: no writers, a wall-clock timer
    /// ends the run.
    Stress,
    /// Read-write correctness check: the run ends when every writer has
    /// reported.
    Verify,
}

/// Where the run stands.
#[derive(Clone, Copy, PartialEq, Eq, Structural, Debug)]
pub enum RunPhase {
    /// Workers are still arriving at the start barrier; none may issue a
    /// request yet.
    Gathering,
    /// The barrier released; workers are running.
    Running,
    /// Cancellation was signalled; reader reports are being collected.
    Draining,
    /// Every awaited report is in.
    Finished,
}

/// Owns the run protocol: a rendezvous start, one completion signal per
/// worker, cancellation only in its ordered place, and the exit code. The
/// surrounding I/O layer performs the spawning, the barrier, the channels
/// and the sleeps; every decision is made here.
pub struct Supervisor {
    mode: RunMode,
    n_writers: usize,
    n_readers: usize,
    has_killer: bool,
    phase: RunPhase,
    arrivals: usize,
    writers_reported: usize,
    update_errors: usize,
    readers_reported: usize,
    killer_failed: bool,
    cancelled: bool,
}

impl Supervisor {
    /// The run's mode.
    pub closed spec fn mode_spec(&self) -> RunMode {
        self.mode
    }

    /// How many writers the run has.
    pub closed spec fn writers(&self) -> int {
        self.n_writers as int
    }

    /// How many readers the run has.
    pub closed spec fn readers(&self) -> int {
        self.n_readers as int
    }

    /// Whether a fault injector takes part.
    pub closed spec fn killer(&self) -> bool {
        self.has_killer
    }

    /// The phase of the run.
    pub closed spec fn phase_spec(&self) -> RunPhase {
        self.phase
    }

    /// How many parties have arrived at the start barrier.
    pub closed spec fn arrivals_spec(&self) -> int {
        self.arrivals as int
    }

    /// How many writers have reported.
    pub closed spec fn writers_reported_spec(&self) -> int {
        self.writers_reported as int
    }

    /// How many writers reported an error.
    pub closed spec fn update_errors_spec(&self) -> int {
        self.update_errors as int
    }

    /// How many readers have reported.
    pub closed spec fn readers_reported_spec(&self) -> int {
        self.readers_reported as int
    }

    /// Whether the fault injector reported a failure.
    pub closed spec fn killer_failed_spec(&self) -> bool {
        self.killer_failed
    }

    /// Whether cancellation has been signalled.
    pub closed spec fn cancelled_spec(&self) -> bool {
        self.cancelled
    }

    /// Everyone who must arrive before any worker may start: the workers
    /// and the supervisor itself.
    pub open spec fn parties(&self) -> int {
        self.writers() + self.readers() + (if self.killer() {
            1 as int
        } else {
            0 as int
        }) + 1
    }

    /// The protocol's invariant. Among its clauses: the barrier releases
    /// only once every party has arrived, and in verify mode cancellation
    /// is signalled only when every writer has reported or the fault
    /// injector has failed.
    pub open spec fn wf(&self) -> bool {
        &&& self.parties() <= usize::MAX
        &&& 0 <= self.arrivals_spec() <= self.parties()
        &&& 0 <= self.writers_reported_spec() <= self.writers()
        &&& 0 <= self.update_errors_spec() <= self.writers_reported_spec()
        &&& 0 <= self.readers_reported_spec() <= self.readers()
        &&& (self.mode_spec() is Stress ==> self.writers() == 0)
        &&& (self.phase_spec() is Gathering ==> !self.cancelled_spec()
            && self.writers_reported_spec() == 0 && self.readers_reported_spec() == 0
            && !self.killer_failed_spec())
        &&& (!(self.phase_spec() is Gathering) ==> self.arrivals_spec() == self.parties())
        &&& (self.killer_failed_spec() ==> self.cancelled_spec() && self.killer())
        &&& (self.cancelled_spec() && self.mode_spec() is Verify && !self.killer_failed_spec()
            ==> self.writers_reported_spec() == self.writers())
        &&& (self.phase_spec() is Draining ==> self.cancelled_spec())
        &&& (self.phase_spec() is Finished ==> self.cancelled_spec()
            && self.readers_reported_spec() == self.readers())
        &&& (self.phase_spec() is Finished && !self.killer_failed_spec()
            ==> self.writers_reported_spec() == self.writers())
    }

    /// Sets up a run. A stress run has no writers.
    pub fn new(mode: RunMode, n_writers: usize, n_readers: usize, has_killer: bool) -> (r:
        Supervisor)
        requires
            mode is Stress ==> n_writers == 0,
            n_writers + n_readers + 2 <= usize::MAX,
        ensures
            r.wf(),
            r.mode_spec() == mode,
            r.writers() == n_writers,
            r.readers() == n_readers,
            r.killer() == has_killer,
            r.phase_spec() is Gathering,
            r.arrivals_spec() == 0,
            !r.cancelled_spec(),
    {
        Supervisor {
            mode,
            n_writers,
            n_readers,
            has_killer,
            phase: RunPhase::Gathering,
            arrivals: 0,
            writers_reported: 0,
            update_errors: 0,
            readers_reported: 0,
            killer_failed: false,
            cancelled: false,
        }
    }

    /// The phase of the run.
    pub fn phase(&self) -> (r: RunPhase)
        ensures
            r == self.phase_spec(),
    {
        self.phase
    }

    /// Whether cancellation has been signalled.
    pub fn is_cancelled(&self) -> (r: bool)
        ensures
            r == self.cancelled_spec(),
    {
        self.cancelled
    }

    /// One party arrived at the start barrier.
    pub fn on_arrival(&mut self)
        requires
            old(self).wf(),
            old(self).phase_spec() is Gathering,
            old(self).arrivals_spec() < old(self).parties(),
        ensures
            final(self).wf(),
            final(self).phase_spec() is Gathering,
            final(self).arrivals_spec() == old(self).arrivals_spec() + 1,
            final(self).mode_spec() == old(self).mode_spec(),
            final(self).writers() == old(self).writers(),
            final(self).readers() == old(self).readers(),
            final(self).killer() == old(self).killer(),
            !final(self).cancelled_spec(),
    {
        self.arrivals = self.arrivals + 1;
    }

    /// Releases the start barrier. This demands every party's arrival: no
    /// worker may issue a request before the whole fleet is ready.
    pub fn release(&mut self)
        requires
            old(self).wf(),
            old(self).phase_spec() is Gathering,
            old(self).arrivals_spec() == old(self).parties(),
        ensures
            final(self).wf(),
            final(self).phase_spec() is Running,
            final(self).mode_spec() == old(self).mode_spec(),
            final(self).writers() == old(self).writers(),
            final(self).readers() == old(self).readers(),
            final(self).killer() == old(self).killer(),
            !final(self).cancelled_spec(),
            final(self).writers_reported_spec() == 0,
            final(self).readers_reported_spec() == 0,
    {
        self.phase = RunPhase::Running;
    }

    /// The stress timer ran out: cancel the readers and start draining.
    pub fn on_timer(&mut self)
        requires
            old(self).wf(),
            old(self).phase_spec() is Running,
            old(self).mode_spec() is Stress,
        ensures
            final(self).wf(),
            final(self).phase_spec() is Draining,
            final(self).cancelled_spec(),
            final(self).mode_spec() == old(self).mode_spec(),
            final(self).readers() == old(self).readers(),
            final(self).readers_reported_spec() == old(self).readers_reported_spec(),
            final(self).killer_failed_spec() == old(self).killer_failed_spec(),
            final(self).update_errors_spec() == old(self).update_errors_spec(),
    {
        self.cancelled = true;
        self.phase = RunPhase::Draining;
    }

    /// One writer reported. An error is counted; when the last writer is
    /// in, cancellation is signalled and draining begins — and not before.
    pub fn on_writer_done(&mut self, failed: bool)
        requires
            old(self).wf(),
            old(self).phase_spec() is Running,
            old(self).writers_reported_spec() < old(self).writers(),
        ensures
            final(self).wf(),
            final(self).writers_reported_spec() == old(self).writers_reported_spec() + 1,
            final(self).update_errors_spec() == old(self).update_errors_spec() + (if failed {
                1 as int
            } else {
                0 as int
            }),
            final(self).mode_spec() == old(self).mode_spec(),
            final(self).writers() == old(self).writers(),
            final(self).readers() == old(self).readers(),
            final(self).killer() == old(self).killer(),
            final(self).readers_reported_spec() == old(self).readers_reported_spec(),
            final(self).killer_failed_spec() == old(self).killer_failed_spec(),
            final(self).writers_reported_spec() == final(self).writers() ==> final(self).cancelled_spec() && final(self).phase_spec() is Draining,
            final(self).writers_reported_spec() < final(self).writers() ==> final(self).cancelled_spec() == old(self).cancelled_spec() && final(self).phase_spec()
                is Running,
    {
        self.writers_reported = self.writers_reported + 1;
        if failed {
            self.update_errors = self.update_errors + 1;
        }
        if self.writers_reported == self.n_writers {
            self.cancelled = true;
            self.phase = RunPhase::Draining;
        }
    }

    /// Every writer's report is already in (so also when the run has no
    /// writers at all): cancel the readers and start draining.
    pub fn on_all_writers_done(&mut self)
        requires
            old(self).wf(),
            old(self).phase_spec() is Running,
            old(self).writers_reported_spec() == old(self).writers(),
        ensures
            final(self).wf(),
            final(self).phase_spec() is Draining,
            final(self).cancelled_spec(),
            final(self).mode_spec() == old(self).mode_spec(),
            final(self).writers() == old(self).writers(),
            final(self).readers() == old(self).readers(),
            final(self).update_errors_spec() == old(self).update_errors_spec(),
            final(self).readers_reported_spec() == old(self).readers_reported_spec(),
            final(self).killer_failed_spec() == old(self).killer_failed_spec(),
    {
        self.cancelled = true;
        self.phase = RunPhase::Draining;
    }

    /// The fault injector reported. A failure is fatal for the whole run:
    /// everyone is cancelled and the run drains what is left.
    pub fn on_killer_done(&mut self, failed: bool)
        requires
            old(self).wf(),
            old(self).phase_spec() is Running || old(self).phase_spec() is Draining,
            old(self).killer(),
        ensures
            final(self).wf(),
            final(self).mode_spec() == old(self).mode_spec(),
            final(self).writers() == old(self).writers(),
            final(self).readers() == old(self).readers(),
            final(self).update_errors_spec() == old(self).update_errors_spec(),
            final(self).readers_reported_spec() == old(self).readers_reported_spec(),
            failed ==> final(self).killer_failed_spec() && final(self).cancelled_spec() && final(self).phase_spec() is Draining,
            !failed ==> *final(self) == *old(self),
    {
        if failed {
            self.killer_failed = true;
            self.cancelled = true;
            self.phase = RunPhase::Draining;
        }
    }

    /// One reader's report came in; the run finishes when the last one is
    /// collected.
    pub fn on_reader_done(&mut self)
        requires
            old(self).wf(),
            old(self).phase_spec() is Draining,
            old(self).readers_reported_spec() < old(self).readers(),
        ensures
            final(self).wf(),
            final(self).readers_reported_spec() == old(self).readers_reported_spec() + 1,
            final(self).mode_spec() == old(self).mode_spec(),
            final(self).writers() == old(self).writers(),
            final(self).readers() == old(self).readers(),
            final(self).update_errors_spec() == old(self).update_errors_spec(),
            final(self).killer_failed_spec() == old(self).killer_failed_spec(),
            final(self).writers_reported_spec() == old(self).writers_reported_spec(),
            final(self).readers_reported_spec() == final(self).readers() ==> final(self).phase_spec() is Finished,
            final(self).readers_reported_spec() < final(self).readers() ==> final(self).phase_spec() is Draining,
    {
        self.readers_reported = self.readers_reported + 1;
        if self.readers_reported == self.n_readers {
            self.phase = RunPhase::Finished;
        }
    }

    /// The process exit code: zero exactly when no writer and no fault
    /// injector failed. Reader failures are logged, not enforced.
    pub fn exit_code(&self) -> (r: i32)
        requires
            self.wf(),
            self.phase_spec() is Finished,
        ensures
            r == 0 || r == 1,
            (r == 0) <==> (self.update_errors_spec() == 0 && !self.killer_failed_spec()),
    {
        if self.update_errors > 0 || self.killer_failed {
            1
        } else {
            0
        }
    }
}

/// Whether the server bootstrap script allows the run to begin: any exit
/// other than success aborts the whole run before the barrier releases.
pub fn bootstrap_ok(ev: &ScriptEvent) -> (r: bool)
    ensures
        r == (ev matches ScriptEvent::Exited { success: true }),
{
    match ev {
        ScriptEvent::Exited { success } => *success,
        ScriptEvent::Failed { .. } => false,
    }
}

/// Start rendezvous: once the run has left the gathering phase — the only
/// phase in which the barrier can release — every party, workers and
/// supervisor alike, has arrived. No worker issues a request while the run
/// is still gathering.
pub proof fn lemma_start_rendezvous(s: &Supervisor)
    requires
        s.wf(),
        !(s.phase_spec() is Gathering),
    ensures
        s.arrivals_spec() == s.parties(),
{
}

/// Shutdown ordering in verify mode: readers are cancelled only after
/// every writer has succeeded or failed. The one exception is a fault
/// injector failure, which cancels everyone at once.
pub proof fn lemma_shutdown_ordering(s: &Supervisor)
    requires
        s.wf(),
        s.mode_spec() is Verify,
        s.cancelled_spec(),
        !s.killer_failed_spec(),
    ensures
        s.writers_reported_spec() == s.writers(),
{
}

} // verus!
