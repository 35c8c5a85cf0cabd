//! The reconciliation worker: owns the runner list, serialises refresh and
//! control requests, and republishes the list after every one of them.
use vstd::prelude::*;
use crate::control::{
    control_runner, error_text, transition, ControlEvent, ControlRequest, ControlStep, Controller,
    StepView,
};
use crate::probe::{
    opt_view, probe_plan, probe_queries, probed_status, refresh_runners, marker_at, with_status,
    Platform, ProbeObservations, ProbeQuery,
};
use crate::runner::{runner_views, snapshot_runners, Runner, RunnerView};
use crate::text::{decimal, push_decimal, push_str};

verus! {

/// A request from the presentation side.
#[derive(Clone, Debug)]
pub enum WorkerCommand {
    Refresh,
    ControlRunner { runner_index: usize, action: String },
    Shutdown,
}

/// A publication to the presentation side.
#[derive(Debug)]
pub enum WorkerResponse {
    RunnersUpdated(Vec<Runner>),
    ActionComplete { message: String },
}

/// A publication as plain values.
pub ghost enum ResponseView {
    RunnersUpdated(Seq<RunnerView>),
    ActionComplete(Seq<char>),
}

impl View for WorkerResponse {
    type V = ResponseView;

    open spec fn view(&self) -> ResponseView {
        match self {
            WorkerResponse::RunnersUpdated(v) => ResponseView::RunnersUpdated(runner_views(v@)),
            WorkerResponse::ActionComplete { message } => ResponseView::ActionComplete(message@),
        }
    }
}

/// The views of a sequence of publications.
pub open spec fn response_views(v: Seq<WorkerResponse>) -> Seq<ResponseView> {
    v.map_values(|r: WorkerResponse| r@)
}

/// Where the worker stands.
pub enum WorkerState {
    /// Waiting for a command.
    Idle,
    /// Carrying out a control action.
    Busy(Controller),
    /// Waiting for probe answers; the message, if any, is published after
    /// the re-probed list.
    Probing { pending: Option<String> },
    /// Shut down.
    Stopped,
}

/// The external work that the worker asks of its loop.
#[derive(Debug)]
pub enum WorkerAction {
    /// Answer these probe queries and hand them to [`Worker::finish_probe`].
    Probe(Vec<ProbeQuery>),
    /// Perform this request and hand the answer to [`Worker::control_event`].
    Control(ControlRequest),
    /// End the loop.
    Stop,
}

/// The worker: the live runner list, and the platform it controls.
pub struct Worker {
    pub runners: Vec<Runner>,
    pub platform: Platform,
    pub uid: u32,
    pub state: WorkerState,
}

/// The message for a runner index past the end of a list of `n`.
pub open spec fn out_of_bounds_message(index: nat, n: nat) -> Seq<char> {
    "Error: Runner index "@ + decimal(index) + " out of bounds (have "@ + decimal(n)
        + " runners)"@
}

/// The message for a failed control action.
pub open spec fn failure_message(text: Seq<char>) -> Seq<char> {
    "Error: "@ + text
}

/// The message that a finished control step publishes.
pub open spec fn outcome_message(step: StepView) -> Option<Seq<char>> {
    match step {
        StepView::Done(Ok(m)) => Some(m),
        StepView::Done(Err(e)) => Some(failure_message(error_text(e))),
        _ => None,
    }
}

/// The runner list after a probe with answers `obs`.
pub open spec fn reprobed(
    platform: Platform,
    obs: ProbeObservations,
    v: Seq<RunnerView>,
) -> Seq<RunnerView> {
    Seq::new(
        v.len(),
        |i: int|
            with_status(
                v[i],
                probed_status(
                    platform,
                    opt_view(obs.process_listing),
                    opt_view(obs.service_table),
                    v[i],
                    marker_at(obs.config_markers@, i),
                ),
            ),
    )
}

/// Whether the worker waits for probe answers, with message `m` pending.
pub open spec fn probing_with(s: WorkerState, m: Option<Seq<char>>) -> bool {
    s matches WorkerState::Probing { pending } && opt_view(pending) == m
}

/// Whether `r` asks for the probe queries of `n` runners.
pub open spec fn asks_probe(r: WorkerAction, n: nat, p: Platform) -> bool {
    r matches WorkerAction::Probe(q) && q@ == probe_queries(n, p)
}

/// Whether the worker carries out a control action against `runner`.
pub open spec fn busy_with(s: WorkerState, runner: RunnerView) -> bool {
    s matches WorkerState::Busy(c) && c@.runner == runner
}

fn error_message(text: String) -> (r: String)
    ensures
        r@ == failure_message(text@),
{
    let mut m = String::from_str("Error: ");
    push_str(&mut m, text.as_str());
    m
}

impl Worker {
    /// A worker that owns `runners` and is idle.
    pub fn new(runners: Vec<Runner>, platform: Platform, uid: u32) -> (r: Worker)
        ensures
            r.runners@ == runners@,
            r.platform == platform,
            r.uid == uid,
            r.state is Idle,
    {
        Worker { runners, platform, uid, state: WorkerState::Idle }
    }

    /// Takes a command. `Refresh` asks for a probe; `ControlRunner` begins
    /// the action against the runner at that index, or, when the index is
    /// out of range or the action is refused, asks for a probe with the
    /// error message pending; `Shutdown` stops the worker.
    pub fn handle_command(&mut self, command: WorkerCommand) -> (r: WorkerAction)
        ensures
            final(self).runners@ == old(self).runners@,
            final(self).platform == old(self).platform,
            final(self).uid == old(self).uid,
            match command {
                WorkerCommand::Shutdown => r is Stop && final(self).state is Stopped,
                WorkerCommand::Refresh => probing_with(final(self).state, None) && asks_probe(
                    r,
                    old(self).runners@.len(),
                    old(self).platform,
                ),
                WorkerCommand::ControlRunner { runner_index, action } => if runner_index
                    >= old(self).runners@.len() {
                    probing_with(
                        final(self).state,
                        Some(out_of_bounds_message(runner_index as nat, old(self).runners@.len())),
                    ) && asks_probe(r, old(self).runners@.len(), old(self).platform)
                } else {
                    match crate::control::refusal(old(self).runners@[runner_index as int]@, action@) {
                        Some(m) => probing_with(final(self).state, Some(failure_message(m)))
                            && asks_probe(r, old(self).runners@.len(), old(self).platform),
                        None => busy_with(final(self).state, old(self).runners@[runner_index as int]@)
                            && r is Control,
                    }
                },
            },
    {
        match command {
            WorkerCommand::Refresh => {
                self.state = WorkerState::Probing { pending: None };
                WorkerAction::Probe(probe_plan(&self.runners, self.platform))
            },
            WorkerCommand::Shutdown => {
                self.state = WorkerState::Stopped;
                WorkerAction::Stop
            },
            WorkerCommand::ControlRunner { runner_index, action } => {
                if runner_index < self.runners.len() {
                    match control_runner(
                        &self.runners[runner_index],
                        action.as_str(),
                        self.platform,
                        self.uid,
                    ) {
                        Ok((c, q)) => {
                            self.state = WorkerState::Busy(c);
                            WorkerAction::Control(q)
                        },
                        Err(e) => {
                            self.state = WorkerState::Probing {
                                pending: Some(error_message(e.message())),
                            };
                            WorkerAction::Probe(probe_plan(&self.runners, self.platform))
                        },
                    }
                } else {
                    let mut m = String::from_str("Error: Runner index ");
                    push_decimal(&mut m, runner_index as u64);
                    push_str(&mut m, " out of bounds (have ");
                    push_decimal(&mut m, self.runners.len() as u64);
                    push_str(&mut m, " runners)");
                    self.state = WorkerState::Probing { pending: Some(m) };
                    WorkerAction::Probe(probe_plan(&self.runners, self.platform))
                }
            },
        }
    }

    /// Takes the answer to the last control request. While the action goes
    /// on, the next request is handed out; once it has finished, whether it
    /// succeeded or failed, the worker asks for a probe of the whole list and
    /// keeps the outcome's message until the probe is published.
    pub fn control_event(&mut self, event: &ControlEvent) -> (r: WorkerAction)
        ensures
            final(self).runners@ == old(self).runners@,
            final(self).platform == old(self).platform,
            final(self).uid == old(self).uid,
            match old(self).state {
                WorkerState::Busy(c) => {
                    let (phase, step) = transition(c@, event@);
                    match outcome_message(step) {
                        Some(m) => probing_with(final(self).state, Some(m)) && asks_probe(
                            r,
                            old(self).runners@.len(),
                            old(self).platform,
                        ),
                        None => continues(
                            final(self).state,
                            crate::control::ControllerView { phase, ..c@ },
                            step,
                            r,
                        ),
                    }
                },
                _ => probing_with(final(self).state, None) && asks_probe(
                    r,
                    old(self).runners@.len(),
                    old(self).platform,
                ),
            },
    {
        let mut state = WorkerState::Idle;
        std::mem::swap(&mut state, &mut self.state);
        match state {
            WorkerState::Busy(mut c) => match c.advance(event) {
                ControlStep::Request(q) => {
                    self.state = WorkerState::Busy(c);
                    WorkerAction::Control(q)
                },
                ControlStep::Done(outcome) => {
                    let m = match outcome {
                        Ok(m) => m,
                        Err(e) => error_message(e.message()),
                    };
                    self.state = WorkerState::Probing { pending: Some(m) };
                    WorkerAction::Probe(probe_plan(&self.runners, self.platform))
                },
            },
            _ => {
                self.state = WorkerState::Probing { pending: None };
                WorkerAction::Probe(probe_plan(&self.runners, self.platform))
            },
        }
    }

    /// Takes the answers to the probe queries: re-probes every runner and
    /// publishes a copy of the new list, followed by the pending message of
    /// a finished control action, if there is one. The worker is then idle.
    pub fn finish_probe(&mut self, obs: &ProbeObservations) -> (r: Vec<WorkerResponse>)
        ensures
            final(self).platform == old(self).platform,
            final(self).uid == old(self).uid,
            runner_views(final(self).runners@) == reprobed(
                old(self).platform,
                *obs,
                runner_views(old(self).runners@),
            ),
            final(self).state is Idle,
            response_views(r@) == published(
                reprobed(old(self).platform, *obs, runner_views(old(self).runners@)),
                pending_of(old(self).state),
            ),
    {
        let ghost before = self.runners@;
        refresh_runners(&mut self.runners, self.platform, obs);
        assert(runner_views(self.runners@) =~= reprobed(self.platform, *obs, runner_views(before)));
        let mut state = WorkerState::Idle;
        std::mem::swap(&mut state, &mut self.state);
        let mut out: Vec<WorkerResponse> = Vec::new();
        out.push(WorkerResponse::RunnersUpdated(snapshot_runners(&self.runners)));
        if let WorkerState::Probing { pending: Some(m) } = state {
            out.push(WorkerResponse::ActionComplete { message: m });
        }
        assert(response_views(out@) =~= published(
            runner_views(self.runners@),
            pending_of(state),
        ));
        out
    }
}

/// Whether the worker goes on with controller `cv`, handing out the
/// request of `step`.
pub open spec fn continues(s: WorkerState, cv: crate::control::ControllerView, step: StepView, r: WorkerAction) -> bool {
    &&& s matches WorkerState::Busy(c2) && c2@ == cv
    &&& step matches StepView::Request(q) && r matches WorkerAction::Control(q2) && q2@ == q
}

/// The message that a worker state keeps for publication.
pub open spec fn pending_of(s: WorkerState) -> Option<Seq<char>> {
    match s {
        WorkerState::Probing { pending } => opt_view(pending),
        _ => None,
    }
}

/// What a probe publishes: the list, then the pending message if any.
pub open spec fn published(list: Seq<RunnerView>, pending: Option<Seq<char>>) -> Seq<ResponseView> {
    match pending {
        Some(m) => seq![ResponseView::RunnersUpdated(list), ResponseView::ActionComplete(m)],
        None => seq![ResponseView::RunnersUpdated(list)],
    }
}

/// A control action that has ended, whether it succeeded or failed, is
/// followed by a probe: its message is published only after the list that
/// the fresh probe answers give, never beside the list from before the action.
pub proof fn lemma_outcome_follows_reprobe(
    c: crate::control::ControllerView,
    e: crate::control::EventView,
    platform: Platform,
    obs: ProbeObservations,
    before: Seq<RunnerView>,
)
    requires
        outcome_message(transition(c, e).1) is Some,
    ensures
        transition(c, e).1 is Done,
        published(reprobed(platform, obs, before), outcome_message(transition(c, e).1)) == seq![
            ResponseView::RunnersUpdated(reprobed(platform, obs, before)),
            ResponseView::ActionComplete(outcome_message(transition(c, e).1)->0),
        ],
{
}

} // verus!
