//! Worker errors and their rendered messages.

use vstd::prelude::*;
use crate::text::{dec_digits, dec_str};

verus! {

/// Why an HTTP exchange failed, as the worker logic sees it.
#[derive(Debug)]
pub enum HttpFailure {
    /// The server answered with a non-success status code.
    Status(u16),
    /// The exchange failed below the protocol level: connecting, sending, or
    /// reading the body. The rendered cause is kept for reporting.
    Transport(String),
}

/// Expected-versus-actual payload attached to a state mismatch when running
/// verbose.
#[derive(Debug)]
pub struct InvalidStateVerboseInfo {
    pub query: String,
    pub expected: String,
    pub actual: String,
}

/// The mutation text attached to a failed update when running verbose.
#[derive(Debug)]
pub struct UpdateFailedVerboseInfo {
    pub query: String,
}

/// Terminal failures a worker can report to the supervisor.
#[allow(inconsistent_fields)]
#[derive(Debug)]
pub enum WorkerError {
    /// The store's observable state differed from the recorded expectation.
    InvalidState { update_id: usize, verbose_info: Option<InvalidStateVerboseInfo> },
    /// A reader's query failed under `ReportConnectionError`.
    ReadFailed { query: String, err: HttpFailure },
    /// A verification query could not be completed.
    UpdateVerifyFailed { update_id: usize, err: HttpFailure },
    /// A mutation did not complete with a success status.
    UpdateFailed { update_id: usize, err: HttpFailure, verbose_info: Option<UpdateFailedVerboseInfo> },
    /// The kill script failed; the rendered cause is kept.
    KillFailed(String),
    /// The restart script failed; the rendered cause is kept.
    RestartFailed(String),
}

/// The rendered line diff that `prettydiff::diff_lines` produces for the two
/// texts. The rendering depends on the texts alone.
pub uninterp spec fn line_diff_of(expected: Seq<char>, actual: Seq<char>) -> Seq<char>;

/// Relies on prettydiff::diff_lines: renders a line diff of the two texts,
/// a function of the two texts alone.
#[verifier::external_body]
fn diff_lines_str(expected: &str, actual: &str) -> (r: String)
    ensures
        r@ == line_diff_of(expected@, actual@),
{
    format!("{}", prettydiff::diff_lines(expected, actual))
}

/// The message rendered for an HTTP failure.
pub open spec fn http_failure_msg(e: HttpFailure) -> Seq<char> {
    match e {
        HttpFailure::Status(c) => "HTTP status "@ + dec_digits(c as nat),
        HttpFailure::Transport(d) => d@,
    }
}

/// The message rendered for a worker error.
pub open spec fn worker_error_msg(e: WorkerError) -> Seq<char> {
    match e {
        WorkerError::InvalidState { update_id, verbose_info } => "Unexpected result at update "@
            + dec_digits(update_id as nat) + match verbose_info {
            Some(vi) => if vi.expected@ != vi.actual@ {
                "\nQuery:\n"@ + vi.query@ + "\n\nDifference between expected and actual state:\n"@
                    + line_diff_of(vi.expected@, vi.actual@) + "\n"@
            } else {
                Seq::<char>::empty()
            },
            None => Seq::<char>::empty(),
        },
        WorkerError::UpdateVerifyFailed { update_id, err } => {
            "Unable to execute verification query for update "@ + dec_digits(update_id as nat)
                + ". Error: "@ + http_failure_msg(err)
        },
        WorkerError::UpdateFailed { update_id, err, verbose_info } => "Unable to execute update "@
            + dec_digits(update_id as nat) + ". Error: "@ + http_failure_msg(err) + match verbose_info {
            Some(vi) => "\nQuery: "@ + vi.query@,
            None => Seq::<char>::empty(),
        },
        WorkerError::ReadFailed { query, err } => "A reader was unable to execute a query. Error: "@
            + http_failure_msg(err) + "\nQuery: "@ + query@ + "\n"@,
        WorkerError::KillFailed(d) => "Unable to kill server. Error: "@ + d@,
        WorkerError::RestartFailed(d) => "Unable to restart server. Error: "@ + d@,
    }
}

impl HttpFailure {
    /// Renders the failure for a log line.
    pub fn describe(&self) -> (r: String)
        ensures
            r@ == http_failure_msg(*self),
    {
        match self {
            HttpFailure::Status(c) => {
                let mut s = String::new();
                s.append("HTTP status ");
                let d = dec_str(*c as u64);
                s.append(d.as_str());
                proof {
                    assert(s@ =~= http_failure_msg(*self));
                }
                s
            },
            HttpFailure::Transport(d) => {
                let s = d.clone();
                s
            },
        }
    }
}

impl WorkerError {
    /// Renders the error message, as the supervisor logs it.
    pub fn describe(&self) -> (r: String)
        ensures
            r@ == worker_error_msg(*self),
    {
        match self {
            WorkerError::InvalidState { update_id, verbose_info } => {
                let mut s = String::new();
                s.append("Unexpected result at update ");
                let d = dec_str(*update_id as u64);
                s.append(d.as_str());
                match verbose_info {
                    Some(vi) => {
                        if !vi.expected.eq(&vi.actual) {
                            s.append("\nQuery:\n");
                            s.append(vi.query.as_str());
                            s.append("\n\nDifference between expected and actual state:\n");
                            let diff = diff_lines_str(vi.expected.as_str(), vi.actual.as_str());
                            s.append(diff.as_str());
                            s.append("\n");
                        }
                    },
                    None => {},
                }
                proof {
                    assert(s@ =~= worker_error_msg(*self));
                }
                s
            },
            WorkerError::UpdateVerifyFailed { update_id, err } => {
                let mut s = String::new();
                s.append("Unable to execute verification query for update ");
                let d = dec_str(*update_id as u64);
                s.append(d.as_str());
                s.append(". Error: ");
                let e = err.describe();
                s.append(e.as_str());
                proof {
                    assert(s@ =~= worker_error_msg(*self));
                }
                s
            },
            WorkerError::UpdateFailed { update_id, err, verbose_info } => {
                let mut s = String::new();
                s.append("Unable to execute update ");
                let d = dec_str(*update_id as u64);
                s.append(d.as_str());
                s.append(". Error: ");
                let e = err.describe();
                s.append(e.as_str());
                match verbose_info {
                    Some(vi) => {
                        s.append("\nQuery: ");
                        s.append(vi.query.as_str());
                    },
                    None => {},
                }
                proof {
                    assert(s@ =~= worker_error_msg(*self));
                }
                s
            },
            WorkerError::ReadFailed { query, err } => {
                let mut s = String::new();
                s.append("A reader was unable to execute a query. Error: ");
                let e = err.describe();
                s.append(e.as_str());
                s.append("\nQuery: ");
                s.append(query.as_str());
                s.append("\n");
                proof {
                    assert(s@ =~= worker_error_msg(*self));
                }
                s
            },
            WorkerError::KillFailed(d) => {
                let mut s = String::new();
                s.append("Unable to kill server. Error: ");
                s.append(d.as_str());
                proof {
                    assert(s@ =~= worker_error_msg(*self));
                }
                s
            },
            WorkerError::RestartFailed(d) => {
                let mut s = String::new();
                s.append("Unable to restart server. Error: ");
                s.append(d.as_str());
                proof {
                    assert(s@ =~= worker_error_msg(*self));
                }
                s
            },
        }
    }
}

} // verus!
