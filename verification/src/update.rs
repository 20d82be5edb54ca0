//! Update worker: replays an ordered script of mutations against the store
//! and verifies the observable state after every one.

use vstd::prelude::*;
use crate::WorkerBehaviour;
use crate::canon::{canon_spec, normalize_dbstate};
use crate::error::{
    HttpFailure, InvalidStateVerboseInfo, UpdateFailedVerboseInfo, WorkerError,
};

verus! {

/// Which endpoint a mutation is sent to.
pub enum Endpoint {
    Update,
    Gsp,
}

/// The HTTP method of a mutation.
pub enum Method {
    Post,
    Put,
    Delete,
}

/// One verification: the query to run and the expected canonical state.
pub struct Validate {
    pub query: String,
    pub expected: String,
}

/// One scripted unit of work for a writer.
pub struct UpdateOperation {
    pub endpoint: Endpoint,
    pub query_params: Vec<(String, String)>,
    pub headers: Vec<(String, String)>,
    pub method: Method,
    pub body: String,
    pub validate: Validate,
}

impl UpdateOperation {
    /// The operation with its expected state put in canonical form; all
    /// other fields are kept.
    pub fn normalize(self) -> (r: Self)
        ensures
            r.validate.expected@ == canon_spec(self.validate.expected@),
            r.validate.query == self.validate.query,
            r.endpoint == self.endpoint,
            r.method == self.method,
            r.query_params == self.query_params,
            r.headers == self.headers,
            r.body == self.body,
    {
        Self {
            validate: Validate {
                query: self.validate.query,
                expected: normalize_dbstate(self.validate.expected),
            },
            ..self
        }
    }
}

/// The verb of a shaped request.
pub enum HttpVerb {
    Get,
    Post,
    Put,
    Delete,
}

/// A fully shaped request for the surrounding I/O layer to send.
pub struct HttpRequest {
    pub verb: HttpVerb,
    pub url: String,
    pub headers: Vec<(String, String)>,
    pub query_params: Vec<(String, String)>,
    pub body: String,
}

/// What sending a mutation produced.
pub enum IssueEvent {
    /// The server answered with this status code.
    Response { status: u16 },
    /// The request could not be sent or answered; the rendered cause.
    SendFailed { detail: String },
}

/// What fetching a state produced.
pub enum ReadEvent {
    /// The server answered and the whole body was read.
    Body { status: u16, text: String },
    /// The server answered but reading the body failed; the rendered cause.
    BodyFailed { status: u16, detail: String },
    /// The request could not be sent or answered; the rendered cause.
    SendFailed { detail: String },
}

/// The body text an event carries, if any.
pub open spec fn read_body_text(ev: ReadEvent) -> Seq<char> {
    match ev {
        ReadEvent::Body { status, text } => text@,
        _ => Seq::empty(),
    }
}

/// Whether a status code reports success.
pub open spec fn is_success(status: u16) -> bool {
    200 <= status < 300
}

/// The writer's reaction to the outcome of a mutation.
pub enum IssueStep {
    /// The mutation was accepted; move on to verification.
    Issued,
    /// Transient transport loss; resend the mutation in full.
    Retry,
    /// Terminal failure.
    Failed(HttpFailure),
}

/// The writer's reaction to the outcome of a verification query.
pub enum ReadStep {
    /// The state was read in full; it is held in canonical form.
    State(String),
    /// Transient transport loss; re-run the query.
    Retry,
    /// Terminal failure.
    Failed(HttpFailure),
}

/// How an issue outcome is classified: a success status advances, a non-2xx
/// status is a protocol error whatever the behaviour, and transport loss
/// retries exactly under `IgnoreConnectionError`.
pub open spec fn issue_step_spec(behav: WorkerBehaviour, ev: IssueEvent) -> IssueStep {
    match ev {
        IssueEvent::Response { status } => if is_success(status) {
            IssueStep::Issued
        } else {
            IssueStep::Failed(HttpFailure::Status(status))
        },
        IssueEvent::SendFailed { detail } => if behav == WorkerBehaviour::IgnoreConnectionError {
            IssueStep::Retry
        } else {
            IssueStep::Failed(HttpFailure::Transport(detail))
        },
    }
}

/// How a read outcome is classified: a fully read success body becomes the
/// canonical state, a non-2xx status is a protocol error whatever the
/// behaviour, and transport loss retries exactly under
/// `IgnoreConnectionError`.
pub open spec fn read_step_spec(behav: WorkerBehaviour, ev: ReadEvent) -> ReadStep {
    match ev {
        ReadEvent::Body { status, text } => if is_success(status) {
            ReadStep::State(text)
        } else {
            ReadStep::Failed(HttpFailure::Status(status))
        },
        ReadEvent::BodyFailed { status, detail } => if !is_success(status) {
            ReadStep::Failed(HttpFailure::Status(status))
        } else if behav == WorkerBehaviour::IgnoreConnectionError {
            ReadStep::Retry
        } else {
            ReadStep::Failed(HttpFailure::Transport(detail))
        },
        ReadEvent::SendFailed { detail } => if behav == WorkerBehaviour::IgnoreConnectionError {
            ReadStep::Retry
        } else {
            ReadStep::Failed(HttpFailure::Transport(detail))
        },
    }
}

/// Classifies the outcome of a mutation.
pub fn classify_issue(behav: WorkerBehaviour, ev: IssueEvent) -> (r: IssueStep)
    ensures
        r == issue_step_spec(behav, ev),
{
    match ev {
        IssueEvent::Response { status } => {
            if 200 <= status && status < 300 {
                IssueStep::Issued
            } else {
                IssueStep::Failed(HttpFailure::Status(status))
            }
        },
        IssueEvent::SendFailed { detail } => {
            if behav == WorkerBehaviour::IgnoreConnectionError {
                IssueStep::Retry
            } else {
                IssueStep::Failed(HttpFailure::Transport(detail))
            }
        },
    }
}

/// Classifies the outcome of a verification query; a fully read success
/// body is put in canonical form.
pub fn classify_read(behav: WorkerBehaviour, ev: ReadEvent) -> (r: ReadStep)
    ensures
        (r matches ReadStep::State(s) ==> (read_step_spec(behav, ev) matches ReadStep::State(t)
            && s@ == canon_spec(t@))),
        (read_step_spec(behav, ev) matches ReadStep::State(t) ==> r is State),
        r is Retry <==> read_step_spec(behav, ev) is Retry,
        (r matches ReadStep::Failed(f) <==> read_step_spec(behav, ev) matches ReadStep::Failed(
            g,
        )),
        (r matches ReadStep::Failed(f) ==> (read_step_spec(behav, ev) matches ReadStep::Failed(g)
            && f == g)),
{
    match ev {
        ReadEvent::Body { status, text } => {
            if 200 <= status && status < 300 {
                ReadStep::State(normalize_dbstate(text))
            } else {
                ReadStep::Failed(HttpFailure::Status(status))
            }
        },
        ReadEvent::BodyFailed { status, detail } => {
            if !(200 <= status && status < 300) {
                ReadStep::Failed(HttpFailure::Status(status))
            } else if behav == WorkerBehaviour::IgnoreConnectionError {
                ReadStep::Retry
            } else {
                ReadStep::Failed(HttpFailure::Transport(detail))
            }
        },
        ReadEvent::SendFailed { detail } => {
            if behav == WorkerBehaviour::IgnoreConnectionError {
                ReadStep::Retry
            } else {
                ReadStep::Failed(HttpFailure::Transport(detail))
            }
        },
    }
}

/// One recorded stage of the writer's protocol.
pub enum TraceStage {
    /// The mutation of the operation at this index received a success status.
    IssueOk(int),
    /// The verification of the operation at this index completed and matched.
    VerifyOk(int),
}

/// The stages a writer has gone through after completing `done` operations,
/// with the next mutation already accepted if `verifying`.
pub open spec fn expected_trace(done: int, verifying: bool) -> Seq<TraceStage>
    decreases (if done < 0 { 0 } else if verifying { 2 * done + 1 } else { 2 * done }),
{
    if done < 0 {
        Seq::empty()
    } else if verifying {
        expected_trace(done, false).push(TraceStage::IssueOk(done))
    } else if done == 0 {
        Seq::empty()
    } else {
        expected_trace(done - 1, true).push(TraceStage::VerifyOk(done - 1))
    }
}

/// The k-th recorded stage is the issue stage (even k) or verify stage
/// (odd k) of operation `k / 2`.
pub proof fn lemma_expected_trace_shape(done: int, verifying: bool)
    requires
        done >= 0,
    ensures
        expected_trace(done, verifying).len() == 2 * done + if verifying { 1 as int } else { 0 as int },
        forall|k: int|
            0 <= k < expected_trace(done, verifying).len() ==> #[trigger] expected_trace(
                done,
                verifying,
            )[k] == if k % 2 == 0 {
                TraceStage::IssueOk(k / 2)
            } else {
                TraceStage::VerifyOk(k / 2)
            },
    decreases (if verifying { 2 * done + 1 } else { 2 * done }),
{
    if verifying {
        lemma_expected_trace_shape(done, false);
    } else if done > 0 {
        lemma_expected_trace_shape(done - 1, true);
    }
}

/// Where the writer stands inside one operation.
#[derive(Clone, Copy, PartialEq, Eq, Structural, Debug)]
pub enum WriterPhase {
    /// The mutation is to be sent (or resent).
    Issuing,
    /// The mutation was accepted; the state is to be read and compared.
    Verifying,
    /// The script completed or a terminal failure occurred.
    Finished,
}

/// Replays an ordered, non-empty script of operations. The surrounding I/O
/// layer asks for the request of the current phase, performs it, and hands
/// the outcome back; every decision in between is made here.
pub struct UpdateWorker {
    query_endpoint: String,
    update_endpoint: String,
    graph_store_endpoint: String,
    queries: Vec<UpdateOperation>,
    verbose: bool,
    behav: WorkerBehaviour,
    op_index: usize,
    phase: WriterPhase,
    outcome: Option<Result<(), WorkerError>>,
}

impl UpdateWorker {
    /// The normalized script.
    pub closed spec fn script(&self) -> Seq<UpdateOperation> {
        self.queries@
    }

    /// How transport failures are treated.
    pub closed spec fn behaviour(&self) -> WorkerBehaviour {
        self.behav
    }

    /// Whether failures carry verbose payloads.
    pub closed spec fn is_verbose(&self) -> bool {
        self.verbose
    }

    /// The index of the operation being worked on.
    pub closed spec fn cur_op(&self) -> int {
        self.op_index as int
    }

    /// The phase the writer is in.
    pub closed spec fn phase_spec(&self) -> WriterPhase {
        self.phase
    }

    /// The final result, once the writer is finished.
    pub closed spec fn result_spec(&self) -> Option<Result<(), WorkerError>> {
        self.outcome
    }

    /// The query endpoint.
    pub closed spec fn query_endpoint_spec(&self) -> Seq<char> {
        self.query_endpoint@
    }

    /// The update endpoint.
    pub closed spec fn update_endpoint_spec(&self) -> Seq<char> {
        self.update_endpoint@
    }

    /// The graph-store endpoint.
    pub closed spec fn gsp_endpoint_spec(&self) -> Seq<char> {
        self.graph_store_endpoint@
    }

    /// The protocol stages the writer has gone through, reconstructed from
    /// its position: a failure during verification keeps the accepted
    /// mutation's stage.
    pub open spec fn trace_spec(&self) -> Seq<TraceStage> {
        if self.phase_spec() is Verifying {
            expected_trace(self.cur_op(), true)
        } else if self.failed_verifying() {
            expected_trace(self.cur_op(), true)
        } else {
            expected_trace(self.cur_op(), false)
        }
    }

    /// Whether the writer finished by a failure inside the verification
    /// stage.
    pub open spec fn failed_verifying(&self) -> bool {
        match self.result_spec() {
            Some(Err(e)) => e is UpdateVerifyFailed || e is InvalidState,
            _ => false,
        }
    }

    /// The writer's state is consistent.
    pub open spec fn wf(&self) -> bool {
        &&& self.script().len() > 0
        &&& self.script().len() <= usize::MAX
        &&& 0 <= self.cur_op() <= self.script().len()
        &&& (self.phase_spec() is Issuing || self.phase_spec() is Verifying) ==> self.cur_op()
            < self.script().len()
        &&& (self.phase_spec() is Finished <==> self.result_spec() is Some)
        &&& (self.result_spec() matches Some(Ok(u)) ==> self.cur_op() == self.script().len())
    }

    /// Builds a writer from an already loaded script: every operation's
    /// expected state is canonicalized, and an empty script is rejected.
    pub fn new(
        operations: Vec<UpdateOperation>,
        query_endpoint: String,
        update_endpoint: String,
        graph_store_endpoint: String,
        verbose: bool,
        behav: WorkerBehaviour,
    ) -> (r: Option<UpdateWorker>)
        ensures
            r is Some <==> operations@.len() > 0,
            r matches Some(w) ==> {
                &&& w.wf()
                &&& w.cur_op() == 0
                &&& w.phase_spec() is Issuing
                &&& w.behaviour() == behav
                &&& w.is_verbose() == verbose
                &&& w.query_endpoint_spec() == query_endpoint@
                &&& w.update_endpoint_spec() == update_endpoint@
                &&& w.gsp_endpoint_spec() == graph_store_endpoint@
                &&& w.script().len() == operations@.len()
                &&& forall|i: int|
                    0 <= i < operations@.len() ==> {
                        let orig = operations@[i];
                        let op = #[trigger] w.script()[i];
                        &&& op.validate.expected@ == canon_spec(orig.validate.expected@)
                        &&& op.validate.query == orig.validate.query
                        &&& op.endpoint == orig.endpoint
                        &&& op.method == orig.method
                        &&& op.query_params == orig.query_params
                        &&& op.headers == orig.headers
                        &&& op.body == orig.body
                    }
            },
    {
        if operations.is_empty() {
            return None;
        }
        let ghost orig = operations@;
        let mut rest = operations;
        let mut queries: Vec<UpdateOperation> = Vec::new();
        while rest.len() > 0
            invariant
                queries@.len() + rest@.len() == orig.len(),
                rest@ =~= orig.skip(queries@.len() as int),
                forall|i: int|
                    0 <= i < queries@.len() ==> {
                        let o = orig[i];
                        let op = #[trigger] queries@[i];
                        &&& op.validate.expected@ == canon_spec(o.validate.expected@)
                        &&& op.validate.query == o.validate.query
                        &&& op.endpoint == o.endpoint
                        &&& op.method == o.method
                        &&& op.query_params == o.query_params
                        &&& op.headers == o.headers
                        &&& op.body == o.body
                    },
            decreases rest@.len(),
        {
            let op = rest.remove(0);
            proof {
                assert(op == orig[queries@.len() as int]);
                assert(rest@ =~= orig.skip(queries@.len() as int + 1));
            }
            queries.push(op.normalize());
        }
        let n_ops = queries.len();
        proof {
            assert(queries@.len() == n_ops);
        }
        Some(
            UpdateWorker {
                query_endpoint,
                update_endpoint,
                graph_store_endpoint,
                queries,
                verbose,
                behav,
                op_index: 0,
                phase: WriterPhase::Issuing,
                outcome: None,
            },
        )
    }
}

/// Clones a list of name-value pairs.
fn clone_pairs(v: &Vec<(String, String)>) -> (r: Vec<(String, String)>)
    ensures
        r.deep_view() == v.deep_view(),
{
    let mut r: Vec<(String, String)> = Vec::new();
    let mut i: usize = 0;
    proof {
        assert(r.deep_view() =~= v.deep_view().take(0));
    }
    while i < v.len()
        invariant
            i <= v.len(),
            v@.len() == v.deep_view().len(),
            r.deep_view() == v.deep_view().take(i as int),
        decreases v.len() - i,
    {
        let ghost old_dv = r.deep_view();
        let a = v[i].0.clone();
        let b = v[i].1.clone();
        r.push((a, b));
        proof {
            assert(v.deep_view()[i as int] == (v@[i as int].0@, v@[i as int].1@));
            assert(r.deep_view() =~= old_dv.push((a@, b@)));
            assert(v.deep_view().take(i as int + 1) =~= old_dv.push(v.deep_view()[i as int]));
            assert(r.deep_view() =~= v.deep_view().take(i as int + 1));
        }
        i = i + 1;
    }
    proof {
        assert(v.deep_view().take(v@.len() as int) =~= v.deep_view());
    }
    r
}

impl UpdateWorker {
    /// Shapes the request that sends the current operation's mutation: the
    /// operation's method, headers, query parameters and body, aimed at the
    /// update endpoint or the graph-store endpoint as scripted.
    pub fn issue_request(&self) -> (r: HttpRequest)
        requires
            self.wf(),
            self.phase_spec() is Issuing,
        ensures
            ({
                let op = self.script()[self.cur_op()];
                &&& (op.endpoint is Update ==> r.url@ == self.update_endpoint_spec())
                &&& (op.endpoint is Gsp ==> r.url@ == self.gsp_endpoint_spec())
                &&& (op.method is Post <==> r.verb is Post)
                &&& (op.method is Put <==> r.verb is Put)
                &&& (op.method is Delete <==> r.verb is Delete)
                &&& r.headers.deep_view() == op.headers.deep_view()
                &&& r.query_params.deep_view() == op.query_params.deep_view()
                &&& r.body@ == op.body@
            }),
    {
        let op = &self.queries[self.op_index];
        let url = match op.endpoint {
            Endpoint::Update => self.update_endpoint.clone(),
            Endpoint::Gsp => self.graph_store_endpoint.clone(),
        };
        let verb = match op.method {
            Method::Post => HttpVerb::Post,
            Method::Put => HttpVerb::Put,
            Method::Delete => HttpVerb::Delete,
        };
        HttpRequest {
            verb,
            url,
            headers: clone_pairs(&op.headers),
            query_params: clone_pairs(&op.query_params),
            body: op.body.clone(),
        }
    }

    /// Shapes the request that reads the state the current operation's
    /// verification expects: a GET on the query endpoint asking for
    /// N-Triples, with the verification query as its one parameter.
    pub fn verify_request(&self) -> (r: HttpRequest)
        requires
            self.wf(),
            self.phase_spec() is Verifying,
        ensures
            ({
                let op = self.script()[self.cur_op()];
                &&& r.verb is Get
                &&& r.url@ == self.query_endpoint_spec()
                &&& r.headers@.len() == 1
                &&& r.headers@[0].0@ == "Accept"@
                &&& r.headers@[0].1@ == "application/n-triples"@
                &&& r.query_params@.len() == 1
                &&& r.query_params@[0].0@ == "query"@
                &&& r.query_params@[0].1@ == op.validate.query@
                &&& r.body@.len() == 0
            }),
    {
        let op = &self.queries[self.op_index];
        let mut headers: Vec<(String, String)> = Vec::new();
        headers.push(("Accept".to_owned(), "application/n-triples".to_owned()));
        let mut query_params: Vec<(String, String)> = Vec::new();
        query_params.push(("query".to_owned(), op.validate.query.clone()));
        HttpRequest {
            verb: HttpVerb::Get,
            url: self.query_endpoint.clone(),
            headers,
            query_params,
            body: String::new(),
        }
    }

    /// The writer after its current mutation was accepted.
    pub closed spec fn after_issue_ok(self) -> UpdateWorker {
        UpdateWorker { phase: WriterPhase::Verifying, ..self }
    }

    /// The writer after its current operation verified: the next operation
    /// begins, or the run finishes successfully when the script is done.
    pub closed spec fn after_verify_ok(self) -> UpdateWorker {
        UpdateWorker {
            op_index: (self.op_index + 1) as usize,
            phase: if self.op_index + 1 == self.queries@.len() {
                WriterPhase::Finished
            } else {
                WriterPhase::Issuing
            },
            outcome: if self.op_index + 1 == self.queries@.len() {
                Some(Ok(()))
            } else {
                None
            },
            ..self
        }
    }

    /// What `after_issue_ok` changes and what it keeps.
    pub proof fn lemma_after_issue_ok(self)
        ensures
            ({
                let v = self.after_issue_ok();
                &&& v.phase_spec() is Verifying
                &&& v.cur_op() == self.cur_op()
                &&& v.script() == self.script()
                &&& v.behaviour() == self.behaviour()
                &&& v.is_verbose() == self.is_verbose()
                &&& v.result_spec() == self.result_spec()
                &&& v.query_endpoint_spec() == self.query_endpoint_spec()
                &&& v.update_endpoint_spec() == self.update_endpoint_spec()
                &&& v.gsp_endpoint_spec() == self.gsp_endpoint_spec()
                &&& (self.wf() && self.phase_spec() is Issuing ==> v.wf())
            }),
    {
    }

    /// What `after_verify_ok` changes and what it keeps.
    pub proof fn lemma_after_verify_ok(self)
        requires
            self.wf(),
            self.phase_spec() is Verifying,
        ensures
            ({
                let v = self.after_verify_ok();
                &&& v.wf()
                &&& v.cur_op() == self.cur_op() + 1
                &&& v.script() == self.script()
                &&& v.behaviour() == self.behaviour()
                &&& v.is_verbose() == self.is_verbose()
                &&& (v.cur_op() == v.script().len() ==> v.phase_spec() is Finished
                    && v.result_spec() == Some(Result::<(), WorkerError>::Ok(())))
                &&& (v.cur_op() < v.script().len() ==> v.phase_spec() is Issuing
                    && v.result_spec() is None)
            }),
    {
    }

    /// Feeds the outcome of sending the mutation into the state machine: a
    /// success status moves to verification, a transient changes nothing
    /// (the mutation is resent in full), and anything else finishes the run
    /// with `UpdateFailed`.
    pub fn on_issue_event(&mut self, ev: IssueEvent)
        requires
            old(self).wf(),
            old(self).phase_spec() is Issuing,
        ensures
            final(self).wf(),
            issue_step_spec(old(self).behaviour(), ev) is Retry ==> *final(self) == *old(self),
            issue_step_spec(old(self).behaviour(), ev) is Issued ==> {
                &&& *final(self) == old(self).after_issue_ok()
                &&& final(self).phase_spec() is Verifying
                &&& final(self).cur_op() == old(self).cur_op()
                &&& final(self).script() == old(self).script()
                &&& final(self).behaviour() == old(self).behaviour()
                &&& final(self).is_verbose() == old(self).is_verbose()
            },
            issue_step_spec(old(self).behaviour(), ev) matches IssueStep::Failed(f) ==> {
                &&& final(self).phase_spec() is Finished
                &&& final(self).cur_op() == old(self).cur_op()
                &&& final(self).script() == old(self).script()
                &&& final(self).behaviour() == old(self).behaviour()
                &&& final(self).is_verbose() == old(self).is_verbose()
                &&& (final(self).result_spec() matches Some(Err(e)) && (
                e matches WorkerError::UpdateFailed { update_id, err, verbose_info }
                    && update_id as int == old(self).cur_op() && err == f && (old(self).is_verbose()
                    ==> (verbose_info matches Some(vi) && vi.query@ == old(self).script()[old(
                    self,
                ).cur_op()].body@)) && (!old(self).is_verbose() ==> verbose_info is None)))
            },
    {
        let step = classify_issue(self.behav, ev);
        match step {
            IssueStep::Retry => {},
            IssueStep::Issued => {
                proof {
                    old(self).lemma_after_issue_ok();
                }
                self.phase = WriterPhase::Verifying;
            },
            IssueStep::Failed(f) => {
                let verbose_info = if self.verbose {
                    Some(UpdateFailedVerboseInfo { query: self.queries[self.op_index].body.clone() })
                } else {
                    None
                };
                self.outcome = Some(
                    Err(
                        WorkerError::UpdateFailed {
                            update_id: self.op_index,
                            err: f,
                            verbose_info,
                        },
                    ),
                );
                self.phase = WriterPhase::Finished;
            },
        }
    }

    /// Feeds the outcome of a verification query into the state machine: a
    /// fully read state is compared in canonical form and advances on a
    /// match or finishes with `InvalidState` on a mismatch; a transient
    /// changes nothing (the query is re-run); anything else finishes the
    /// run with `UpdateVerifyFailed`.
    pub fn on_read_event(&mut self, ev: ReadEvent)
        requires
            old(self).wf(),
            old(self).phase_spec() is Verifying,
        ensures
            final(self).wf(),
            read_step_spec(old(self).behaviour(), ev) is Retry ==> *final(self) == *old(self),
            read_step_spec(old(self).behaviour(), ev) is State && canon_spec(read_body_text(ev))
                == old(self).script()[old(self).cur_op()].validate.expected@ ==> {
                &&& *final(self) == old(self).after_verify_ok()
                &&& final(self).cur_op() == old(self).cur_op() + 1
                &&& final(self).script() == old(self).script()
                &&& final(self).behaviour() == old(self).behaviour()
                &&& final(self).is_verbose() == old(self).is_verbose()
                &&& (final(self).cur_op() == final(self).script().len() ==> final(self).phase_spec() is Finished && final(self).result_spec() == Some(Result::<
                    (),
                    WorkerError,
                >::Ok(())))
                &&& (final(self).cur_op() < final(self).script().len() ==> final(self).phase_spec() is Issuing && final(self).result_spec() is None)
            },
            read_step_spec(old(self).behaviour(), ev) is State && canon_spec(read_body_text(ev))
                != old(self).script()[old(self).cur_op()].validate.expected@ ==> {
                &&& final(self).phase_spec() is Finished
                &&& final(self).cur_op() == old(self).cur_op()
                &&& final(self).script() == old(self).script()
                &&& final(self).behaviour() == old(self).behaviour()
                &&& final(self).is_verbose() == old(self).is_verbose()
                &&& (final(self).result_spec() matches Some(Err(e)) && (
                e matches WorkerError::InvalidState { update_id, verbose_info }
                    && update_id as int == old(self).cur_op() && (old(self).is_verbose() ==> (
                verbose_info matches Some(vi) && vi.query@ == old(self).script()[old(
                    self,
                ).cur_op()].validate.query@ && vi.expected@ == old(self).script()[old(
                    self,
                ).cur_op()].validate.expected@ && vi.actual@ == canon_spec(read_body_text(ev)))) && (!old(
                    self,
                ).is_verbose() ==> verbose_info is None)))
            },
            read_step_spec(old(self).behaviour(), ev) matches ReadStep::Failed(f) ==> {
                &&& final(self).phase_spec() is Finished
                &&& final(self).cur_op() == old(self).cur_op()
                &&& final(self).script() == old(self).script()
                &&& final(self).behaviour() == old(self).behaviour()
                &&& final(self).is_verbose() == old(self).is_verbose()
                &&& (final(self).result_spec() matches Some(Err(e)) && (
                e matches WorkerError::UpdateVerifyFailed { update_id, err }
                    && update_id as int == old(self).cur_op() && err == f))
            },
    {
        let step = classify_read(self.behav, ev);
        match step {
            ReadStep::Retry => {},
            ReadStep::State(actual) => {
                let expected_matches = actual.eq(&self.queries[self.op_index].validate.expected);
                if expected_matches {
                    proof {
                        old(self).lemma_after_verify_ok();
                    }
                    let n = self.queries.len();
                    self.op_index = self.op_index + 1;
                    if self.op_index == n {
                        self.outcome = Some(Ok(()));
                        self.phase = WriterPhase::Finished;
                    } else {
                        self.phase = WriterPhase::Issuing;
                    }
                } else {
                    let verbose_info = if self.verbose {
                        Some(
                            InvalidStateVerboseInfo {
                                query: self.queries[self.op_index].validate.query.clone(),
                                expected: self.queries[self.op_index].validate.expected.clone(),
                                actual,
                            },
                        )
                    } else {
                        None
                    };
                    self.outcome = Some(
                        Err(
                            WorkerError::InvalidState { update_id: self.op_index, verbose_info },
                        ),
                    );
                    self.phase = WriterPhase::Finished;
                }
            },
            ReadStep::Failed(f) => {
                self.outcome = Some(
                    Err(
                        WorkerError::UpdateVerifyFailed { update_id: self.op_index, err: f },
                    ),
                );
                self.phase = WriterPhase::Finished;
            },
        }
    }

    /// The current phase.
    pub fn phase(&self) -> (r: WriterPhase)
        ensures
            r == self.phase_spec(),
    {
        self.phase
    }

    /// The run's result, once the writer is finished.
    pub fn take_result(self) -> (r: Result<(), WorkerError>)
        requires
            self.wf(),
            self.phase_spec() is Finished,
        ensures
            self.result_spec() == Some(r),
    {
        self.outcome.unwrap()
    }
}

/// Within one writer the protocol stages are strictly ordered: the k-th
/// recorded stage is the mutation acceptance (even k) or the verification
/// completion (odd k) of operation k/2. In particular no verification
/// stage is recorded before its own operation's mutation was accepted, and
/// no mutation is accepted before the previous operation verified.
pub proof fn lemma_operation_ordering(w: &UpdateWorker, k: int)
    requires
        w.wf(),
        0 <= k < w.trace_spec().len(),
    ensures
        w.trace_spec()[k] == (if k % 2 == 0 {
            TraceStage::IssueOk(k / 2)
        } else {
            TraceStage::VerifyOk(k / 2)
        }),
        k % 2 == 1 ==> w.trace_spec()[k - 1] == TraceStage::IssueOk(k / 2),
{
    if w.phase_spec() is Verifying || w.failed_verifying() {
        lemma_expected_trace_shape(w.cur_op(), true);
    } else {
        lemma_expected_trace_shape(w.cur_op(), false);
    }
}

/// The writer after a round of mutation outcomes, each either absorbed as
/// transient or accepted. (The laws below admit no terminal outcome, so the
/// catch-all branch is never taken under their premises.)
pub open spec fn run_issue_rounds(w: UpdateWorker, evs: Seq<IssueEvent>) -> UpdateWorker
    decreases evs.len(),
{
    if evs.len() == 0 {
        w
    } else {
        let next = match issue_step_spec(w.behaviour(), evs[0]) {
            IssueStep::Issued => w.after_issue_ok(),
            _ => w,
        };
        run_issue_rounds(next, evs.drop_first())
    }
}

/// Retry completeness, absorption half: under `IgnoreConnectionError` any
/// finite storm of transport failures leaves the writer exactly where it
/// was, so it keeps resending the same mutation.
pub proof fn lemma_retry_storm_absorbed(w: UpdateWorker, evs: Seq<IssueEvent>)
    requires
        w.behaviour() == WorkerBehaviour::IgnoreConnectionError,
        forall|i: int| 0 <= i < evs.len() ==> evs[i] is SendFailed,
    ensures
        run_issue_rounds(w, evs) == w,
    decreases evs.len(),
{
    if evs.len() > 0 {
        assert(evs[0] is SendFailed);
        assert(issue_step_spec(w.behaviour(), evs[0]) is Retry);
        assert forall|i: int| 0 <= i < evs.drop_first().len() implies evs.drop_first()[i]
            is SendFailed by {
            assert(evs.drop_first()[i] == evs[i + 1]);
        }
        lemma_retry_storm_absorbed(w, evs.drop_first());
    }
}

/// Retry completeness, advance half: after such a storm, one success
/// round moves the writer into verification of the very same operation.
/// Together with the absorption half: the writer advances exactly when the
/// store eventually serves a successful round.
pub proof fn lemma_retry_then_success_advances(
    w: UpdateWorker,
    evs: Seq<IssueEvent>,
    ok: IssueEvent,
)
    requires
        w.wf(),
        w.phase_spec() is Issuing,
        w.behaviour() == WorkerBehaviour::IgnoreConnectionError,
        forall|i: int| 0 <= i < evs.len() ==> evs[i] is SendFailed,
        ok matches IssueEvent::Response { status } && is_success(status),
    ensures
        ({
            let v = run_issue_rounds(w, evs.push(ok));
            &&& v == w.after_issue_ok()
            &&& v.wf()
            &&& v.phase_spec() is Verifying
            &&& v.cur_op() == w.cur_op()
            &&& v.script() == w.script()
        }),
    decreases evs.len(),
{
    w.lemma_after_issue_ok();
    if evs.len() == 0 {
        assert(evs.push(ok)[0] == ok);
        assert(issue_step_spec(w.behaviour(), ok) is Issued);
        assert(evs.push(ok).drop_first() =~= Seq::<IssueEvent>::empty());
        assert(run_issue_rounds(w.after_issue_ok(), Seq::<IssueEvent>::empty())
            == w.after_issue_ok());
        assert(run_issue_rounds(w, evs.push(ok)) == w.after_issue_ok());
    } else {
        assert(evs.push(ok)[0] == evs[0]);
        assert(evs[0] is SendFailed);
        assert(issue_step_spec(w.behaviour(), evs[0]) is Retry);
        assert(evs.push(ok).drop_first() =~= evs.drop_first().push(ok));
        assert forall|i: int| 0 <= i < evs.drop_first().len() implies evs.drop_first()[i]
            is SendFailed by {
            assert(evs.drop_first()[i] == evs[i + 1]);
        }
        lemma_retry_then_success_advances(w, evs.drop_first(), ok);
        assert(run_issue_rounds(w, evs.push(ok)) == run_issue_rounds(
            w,
            evs.drop_first().push(ok),
        ));
    }
}

} // verus!
