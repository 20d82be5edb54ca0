//! A concurrent correctness-and-throughput harness for an RDF triple store
//! behind a SPARQL Protocol endpoint.
//!
//! Writers replay an ordered script of updates and verify the store's
//! observable state after every one; readers measure per-query throughput
//! in parallel; an optional fault injector kills and restarts the server
//! under load. The decision logic lives here as verified state machines:
//! the canonical state comparison, the query generators, the writer's
//! issue/verify/compare cycle with its retry policy, the reader's sample
//! bookkeeping and reduction, the kill/restart cycle, and the supervisor's
//! rendezvous start, shutdown ordering and exit code. The surrounding I/O
//! layer performs the HTTP exchanges, sleeps and process spawns, and feeds
//! every outcome back as an event.

use vstd::prelude::*;

pub mod canon;
pub mod error;
pub mod kill;
pub mod query_gen;
pub mod reader;
pub mod supervisor;
pub mod text;
pub mod update;

verus! {

/// Governs how a worker reacts to transport-level failures: retry quietly or
/// surface them as errors.
#[derive(Copy, Clone, PartialEq, Eq, Structural, Debug)]
pub enum WorkerBehaviour {
    IgnoreConnectionError,
    ReportConnectionError,
}

} // verus!
