//! The workflow orchestrator: runs an ordered list of request templates,
//! threading the variable store from response to response, gating on success
//! status, and aggregating the per-step records.
//!
//! The engine itself performs no transport: the caller drives a
//! [`WorkflowExec`] machine step by step — it builds each request, the caller
//! sends it and feeds the raw outcome back, and the machine interprets,
//! gates and merges. One logical thread of control touches the store, so the
//! sequential-merge contract holds by construction.

use vstd::prelude::*;
use crate::request::{Request, RequestContext, BuildError, build_request, spec_build_ok,
    spec_build_result};
use crate::response::{Response, InterpretError, interpret_response, spec_interpret_ok,
    spec_extracted_entries, bindings_view};
use crate::vars::{WorkflowContext, bindings_map, entries_map, lemma_bindings_map_is_entries_map};
use crate::model::BodyV;

verus! {

/// A workflow: a named, ordered list of request templates, executed in
/// declaration order with no reordering and no parallelism.
#[derive(Debug, PartialEq, Eq)]
pub struct Workflow {
    pub name: String,
    pub requests: Vec<Request>,
}

/// What aborts a workflow.
#[derive(Debug, PartialEq, Eq)]
pub enum WorkflowError {
    /// The step's request could not be built from its template.
    Build(BuildError),
    /// The transport could not send the request or read the response —
    /// a connection failure, or a URI the transport refused; carries the
    /// transport's message.
    Transport(String),
    /// The step's response could not be interpreted: malformed JSON under a
    /// JSON content type, or a malformed extractor path.
    Interpret(InterpretError),
    /// The step's response status was outside the success range 200–299.
    UnexpectedStatus(u16),
}

/// What the transport reports back for one sent request.
#[derive(Debug, PartialEq, Eq)]
pub enum StepEvent {
    /// A response arrived: status, timings and what was received.
    Delivered {
        status_code: u16,
        time_to_headers_ms: u64,
        time_total_ms: u64,
        headers: Vec<(String, String)>,
        body: String,
    },
    /// The transport failed; carries its message.
    Failed { message: String },
}

/// Where the orchestrator stands.
#[derive(Debug, Clone, Copy, PartialEq, Eq, Structural)]
pub enum Phase {
    /// Ready to build the next step — or finished, if every step ran.
    Ready,
    /// A step was built and handed to the transport; awaiting its event.
    Sending,
    /// A step failed; no further step will be attempted.
    Aborted,
}

/// The record of a completed run: every step's response, in order, and the
/// final variable store.
#[derive(Debug)]
pub struct WorkflowResult {
    pub responses: Vec<Response>,
    pub final_variables: WorkflowContext,
}

/// The terminal outcome of a workflow.
#[derive(Debug)]
pub enum WorkflowOutcome {
    /// All requests ran and all succeeded.
    Completed(WorkflowResult),
    /// The workflow stopped: the completed prefix of response records and
    /// the triggering error.
    Aborted { responses: Vec<Response>, error: WorkflowError },
}

/// The store after a prefix of steps: the initial store merged, in step
/// order, with each step's extracted variables — a later step's variable
/// shadows an earlier one of the same name.
pub open spec fn merged_store(
    init: Map<Seq<char>, Option<Seq<char>>>,
    rs: Seq<Response>,
) -> Map<Seq<char>, Option<Seq<char>>>
    decreases rs.len(),
{
    if rs.len() == 0 {
        init
    } else {
        merged_store(init, rs.drop_last()).union_prefer_right(
            bindings_map(rs.last().extracted_variables@),
        )
    }
}

/// One more successful step merges exactly its extracted variables on top of
/// the store so far.
pub proof fn lemma_merged_store_step(
    init: Map<Seq<char>, Option<Seq<char>>>,
    rs: Seq<Response>,
    resp: Response,
)
    ensures
        merged_store(init, rs.push(resp)) == merged_store(init, rs).union_prefer_right(
            bindings_map(resp.extracted_variables@),
        ),
{
    assert(rs.push(resp).drop_last() =~= rs);
    assert(rs.push(resp).last() == resp);
}

/// The executor of one workflow, driven step by step by the caller: `Ready →
/// (per request: build → send → interpret → merge) → Ready | Aborted`.
pub struct WorkflowExec {
    requests: Vec<Request>,
    context: WorkflowContext,
    responses: Vec<Response>,
    phase: Phase,
    pending: Option<RequestContext>,
    error: Option<WorkflowError>,
    initial: Ghost<Map<Seq<char>, Option<Seq<char>>>>,
}

/// Caller-supplied observation hooks, invoked synchronously before each send
/// and after each receive. They are shown the step and its data and return
/// nothing, so they cannot alter the store or the control flow.
pub trait WorkflowObserver {
    /// Shown the template, the resolved request about to be transmitted, and
    /// the current store.
    fn before_send(&mut self, request: &Request, resolved: &RequestContext, variables: &WorkflowContext);

    /// Shown the template, the resolved request and the interpreted
    /// response.
    fn after_receive(&mut self, request: &Request, resolved: &RequestContext, response: &Response);
}

impl WorkflowExec {
    /// The machine is consistent: the phase tags match the data at hand, at
    /// most every step has run, and — the sequential-merge contract — while
    /// the workflow is alive the store is the initial store merged, in step
    /// order, with each completed step's extracted variables.
    pub closed spec fn wf(self) -> bool {
        &&& self.responses@.len() <= self.requests@.len()
        &&& (self.phase == Phase::Sending) == (self.pending is Some)
        &&& (self.phase == Phase::Aborted) == (self.error is Some)
        &&& (self.phase == Phase::Sending ==> self.responses@.len() < self.requests@.len())
        &&& (self.phase != Phase::Aborted ==> self.context@ == merged_store(
            self.initial@,
            self.responses@,
        ))
    }

    /// The templates, in execution order.
    pub closed spec fn templates(self) -> Seq<Request> {
        self.requests@
    }

    /// The current variable store.
    pub closed spec fn store_map(self) -> Map<Seq<char>, Option<Seq<char>>> {
        self.context@
    }

    /// The store the run began with.
    pub closed spec fn initial_map(self) -> Map<Seq<char>, Option<Seq<char>>> {
        self.initial@
    }

    /// The response records completed so far, in step order.
    pub closed spec fn responses_seq(self) -> Seq<Response> {
        self.responses@
    }

    pub closed spec fn phase_of(self) -> Phase {
        self.phase
    }

    pub closed spec fn pending_of(self) -> Option<RequestContext> {
        self.pending
    }

    pub closed spec fn error_of(self) -> Option<WorkflowError> {
        self.error
    }

    /// Nothing more will happen: every step ran, or the workflow aborted.
    pub open spec fn is_done(self) -> bool {
        self.phase_of() == Phase::Aborted || (self.phase_of() == Phase::Ready
            && self.responses_seq().len() == self.templates().len())
    }

    /// Starts a workflow over an initial store. The caller merges any
    /// supplementary variable files into the store before this point.
    pub fn new(workflow: Workflow, initial: WorkflowContext) -> (r: WorkflowExec)
        ensures
            r.wf(),
            r.templates() == workflow.requests@,
            r.phase_of() == Phase::Ready,
            r.responses_seq() == Seq::<Response>::empty(),
            r.initial_map() == initial@,
            r.store_map() == initial@,
    {
        let ghost init = initial@;
        WorkflowExec {
            requests: workflow.requests,
            context: initial,
            responses: Vec::new(),
            phase: Phase::Ready,
            pending: None,
            error: None,
            initial: Ghost(init),
        }
    }

    pub fn phase(&self) -> (r: Phase)
        ensures
            r == self.phase_of(),
    {
        self.phase
    }

    /// How many steps have completed.
    pub fn steps_done(&self) -> (r: usize)
        ensures
            r == self.responses_seq().len(),
    {
        self.responses.len()
    }

    /// How many steps the workflow declares.
    pub fn steps_total(&self) -> (r: usize)
        ensures
            r == self.templates().len(),
    {
        self.requests.len()
    }

    pub fn done(&self) -> (r: bool)
        ensures
            r == self.is_done(),
    {
        self.phase == Phase::Aborted || (self.phase == Phase::Ready && self.responses.len()
            == self.requests.len())
    }

    /// The file the next step's body reads, if it reads one: the caller
    /// reads it — afresh at every execution — and hands the bytes to
    /// [`WorkflowExec::prepare`].
    pub fn next_body_file(&self) -> (r: Option<String>)
        requires
            self.phase_of() == Phase::Ready,
            self.responses_seq().len() < self.templates().len(),
        ensures
            match r {
                Some(f) => self.templates()[self.responses_seq().len() as int]@.body matches Some(
                    b,
                ) && b matches BodyV::File { file } && file == f@,
                None => !(self.templates()[self.responses_seq().len() as int]@.body matches Some(b)
                    && b is File),
            },
    {
        let k = self.responses.len();
        match &self.requests[k].body {
            Some(crate::model::Body::File { file }) => Some(file.clone()),
            _ => None,
        }
    }

    /// Builds the next step's request, resolving every templated field
    /// against the current store, and shows it to the observer. `true`: the
    /// step is built and awaits its transport event. `false`: building
    /// failed — a build failure is the step's failure, and the workflow
    /// aborts with the response records gathered so far.
    pub fn prepare<O: WorkflowObserver>(
        &mut self,
        file_content: Option<Vec<u8>>,
        obs: &mut O,
    ) -> (r: bool)
        requires
            old(self).wf(),
            old(self).phase_of() == Phase::Ready,
            old(self).responses_seq().len() < old(self).templates().len(),
        ensures
            final(self).wf(),
            final(self).templates() == old(self).templates(),
            final(self).initial_map() == old(self).initial_map(),
            final(self).responses_seq() == old(self).responses_seq(),
            final(self).store_map() == old(self).store_map(),
            r == spec_build_ok(
                old(self).templates()[old(self).responses_seq().len() as int]@,
                old(self).store_map(),
                match file_content {
                    Some(bytes) => Some(bytes@),
                    None => None,
                },
            ),
            r ==> ({
                &&& final(self).phase_of() == Phase::Sending
                &&& final(self).pending_of() matches Some(ctx) && ctx@ == spec_build_result(
                    old(self).templates()[old(self).responses_seq().len() as int]@,
                    old(self).store_map(),
                    match file_content {
                        Some(bytes) => Some(bytes@),
                        None => None,
                    },
                )
            }),
            !r ==> ({
                &&& final(self).phase_of() == Phase::Aborted
                &&& final(self).error_of() matches Some(e) && e is Build
            }),
    {
        let k = self.responses.len();
        match build_request(&self.requests[k], &self.context, file_content) {
            Ok(ctx) => {
                obs.before_send(&self.requests[k], &ctx, &self.context);
                self.pending = Some(ctx);
                self.phase = Phase::Sending;
                true
            },
            Err(e) => {
                self.error = Some(WorkflowError::Build(e));
                self.phase = Phase::Aborted;
                false
            },
        }
    }

    /// The resolved request awaiting its transport event: what the transport
    /// must send, exactly as the before-send observer saw it.
    pub fn pending_request(&self) -> (r: &RequestContext)
        requires
            self.wf(),
            self.phase_of() == Phase::Sending,
        ensures
            self.pending_of() == Some(*r),
    {
        match &self.pending {
            Some(ctx) => ctx,
            None => vstd::pervasive::unreached(),
        }
    }

    /// Consumes the transport's event for the step in flight: interprets a
    /// delivered response — classification, JSON parsing, extraction — shows
    /// it to the observer, then gates on the status: a success status merges
    /// the extracted variables into the store and the workflow goes on; any
    /// failure aborts it. A failing response that was received still joins
    /// the records, so an abort at step k (counted from one) leaves exactly
    /// k records; a transport or interpretation failure leaves k - 1.
    pub fn feed<O: WorkflowObserver>(&mut self, event: StepEvent, obs: &mut O)
        requires
            old(self).wf(),
            old(self).phase_of() == Phase::Sending,
        ensures
            final(self).wf(),
            final(self).templates() == old(self).templates(),
            final(self).initial_map() == old(self).initial_map(),
            event matches StepEvent::Failed { message } ==> {
                &&& final(self).phase_of() == Phase::Aborted
                &&& final(self).responses_seq() == old(self).responses_seq()
                &&& final(self).store_map() == old(self).store_map()
                &&& final(self).error_of() matches Some(WorkflowError::Transport(msg)) && msg@
                    == message@
            },
            event matches StepEvent::Delivered {
                status_code,
                time_to_headers_ms,
                time_total_ms,
                headers,
                body,
            } ==> {
                let t = old(self).templates()[old(self).responses_seq().len() as int]@;
                let hv = crate::request::pairs_view(headers@);
                &&& (!spec_interpret_ok(t, hv, body@) ==> ({
                    &&& final(self).phase_of() == Phase::Aborted
                    &&& final(self).responses_seq() == old(self).responses_seq()
                    &&& final(self).store_map() == old(self).store_map()
                    &&& final(self).error_of() matches Some(e) && e is Interpret
                }))
                &&& (spec_interpret_ok(t, hv, body@) ==> {
                    let resp = final(self).responses_seq().last();
                    &&& final(self).responses_seq().len() == old(self).responses_seq().len() + 1
                    &&& final(self).responses_seq().drop_last() == old(self).responses_seq()
                    &&& resp.status_code == status_code
                    &&& resp.time_to_headers_ms == time_to_headers_ms
                    &&& resp.time_total_ms == time_total_ms
                    &&& resp.headers@ == headers@
                    &&& resp.body@ == body@
                    &&& bindings_view(resp.extracted_variables@) == spec_extracted_entries(
                        t,
                        hv,
                        body@,
                    )
                    &&& (200 <= status_code <= 299 ==> final(self).phase_of() == Phase::Ready
                        && final(self).store_map() == old(self).store_map().union_prefer_right(
                        entries_map(spec_extracted_entries(t, hv, body@)),
                    ))
                    &&& (!(200 <= status_code <= 299) ==> final(self).phase_of() == Phase::Aborted
                        && final(self).store_map() == old(self).store_map()
                        && final(self).error_of() == Some(WorkflowError::UnexpectedStatus(status_code)))
                })
            },
    {
        let k = self.responses.len();
        let mut taken: Option<RequestContext> = None;
        std::mem::swap(&mut taken, &mut self.pending);
        let resolved = match taken {
            Some(ctx) => ctx,
            None => vstd::pervasive::unreached(),
        };
        match event {
            StepEvent::Failed { message } => {
                self.error = Some(WorkflowError::Transport(message));
                self.phase = Phase::Aborted;
            },
            StepEvent::Delivered {
                status_code,
                time_to_headers_ms,
                time_total_ms,
                headers,
                body,
            } => {
                match interpret_response(
                    &self.requests[k],
                    status_code,
                    time_to_headers_ms,
                    time_total_ms,
                    headers,
                    body,
                ) {
                    Err(e) => {
                        self.error = Some(WorkflowError::Interpret(e));
                        self.phase = Phase::Aborted;
                    },
                    Ok(resp) => {
                        obs.after_receive(&self.requests[k], &resolved, &resp);
                        if 200 <= status_code && status_code <= 299 {
                            proof {
                                lemma_bindings_map_is_entries_map(resp.extracted_variables@);
                            }
                            self.context.merge(&resp.extracted_variables);
                            let ghost pre = self.responses@;
                            self.responses.push(resp);
                            self.phase = Phase::Ready;
                            proof {
                                lemma_merged_store_step(
                                    self.initial@,
                                    pre,
                                    self.responses@.last(),
                                );
                                assert(self.responses@.drop_last() =~= pre);
                            }
                        } else {
                            let ghost pre = self.responses@;
                            self.responses.push(resp);
                            self.error = Some(WorkflowError::UnexpectedStatus(status_code));
                            self.phase = Phase::Aborted;
                            proof {
                                assert(self.responses@.drop_last() =~= pre);
                            }
                        }
                    },
                }
            },
        }
    }

    /// The terminal outcome. `Completed` carries every response record and
    /// the final store — the initial store merged, in step order, with each
    /// step's extracted variables. `Aborted` carries the records of the
    /// steps whose responses were received and the triggering error.
    pub fn outcome(self) -> (r: WorkflowOutcome)
        requires
            self.wf(),
            self.is_done(),
        ensures
            self.phase_of() == Phase::Ready ==> (r matches WorkflowOutcome::Completed(res) && {
                &&& res.responses@ == self.responses_seq()
                &&& res.final_variables@ == self.store_map()
                &&& res.final_variables@ == merged_store(self.initial_map(), self.responses_seq())
            }),
            self.phase_of() == Phase::Aborted ==> (r matches WorkflowOutcome::Aborted {
                responses,
                error,
            } && responses@ == self.responses_seq() && Some(error) == self.error_of()),
    {
        match self.phase {
            Phase::Aborted => {
                let error = match self.error {
                    Some(e) => e,
                    None => vstd::pervasive::unreached(),
                };
                WorkflowOutcome::Aborted { responses: self.responses, error }
            },
            _ => {
                WorkflowOutcome::Completed(
                    WorkflowResult {
                        responses: self.responses,
                        final_variables: self.context,
                    },
                )
            },
        }
    }
}

} // verus!
