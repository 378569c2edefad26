//! Pipeline lifecycle state machine.

use vstd::prelude::*;
use vstd::string::*;

use crate::text::{concat2, concat3, debug_quoted, owned, str_debug};

verus! {

/// Pipeline lifecycle states.
#[derive(Debug, Clone, Copy, PartialEq, Eq, Structural)]
pub enum PipelineState {
    Pending,
    Running,
    AwaitingApproval,
    Completed,
    Failed,
    Cancelled,
}

/// Events that drive state transitions.
#[derive(Debug, PartialEq, Eq)]
pub enum StateEvent {
    Start,
    StepStarted { step_id: String },
    ApprovalRequested { approval_id: String },
    ApprovalGranted,
    ApprovalDenied,
    ApprovalTimeout,
    StepCompleted { step_id: String },
    StepFailed { step_id: String, retryable: bool },
    CompensateCompleted,
    Cancel,
    Complete,
}

/// Error returned when an invalid state transition is attempted.
#[derive(Debug, PartialEq, Eq)]
pub struct StateTransitionError {
    pub from: PipelineState,
    pub event: StateEvent,
    pub reason: String,
}

/// Drives a pipeline through its lifecycle states.
#[derive(Debug, PartialEq, Eq)]
pub struct PipelineStateMachine {
    pub pipeline_id: String,
    pub state: PipelineState,
    pub current_step_id: Option<String>,
    pub approval_request_id: Option<String>,
}

/// Whether the lifecycle defines a transition for `event` in state `s`.
pub open spec fn transition_defined(s: PipelineState, event: StateEvent) -> bool {
    match (s, event) {
        (PipelineState::Pending, StateEvent::Start) => true,
        (PipelineState::Running, StateEvent::StepStarted { .. }) => true,
        (PipelineState::Running, StateEvent::ApprovalRequested { .. }) => true,
        (PipelineState::Running, StateEvent::StepCompleted { .. }) => true,
        (PipelineState::Running, StateEvent::StepFailed { .. }) => true,
        (PipelineState::Running, StateEvent::Cancel) => true,
        (PipelineState::Running, StateEvent::Complete) => true,
        (PipelineState::AwaitingApproval, StateEvent::ApprovalGranted) => true,
        (PipelineState::AwaitingApproval, StateEvent::ApprovalDenied) => true,
        (PipelineState::AwaitingApproval, StateEvent::ApprovalTimeout) => true,
        (PipelineState::Failed, StateEvent::CompensateCompleted) => true,
        (PipelineState::Cancelled, StateEvent::CompensateCompleted) => true,
        _ => false,
    }
}

/// The machine after a defined transition.
pub open spec fn apply_event(m: PipelineStateMachine, event: StateEvent) -> PipelineStateMachine {
    match (m.state, event) {
        (PipelineState::Pending, StateEvent::Start) =>
            PipelineStateMachine { state: PipelineState::Running, ..m },
        (PipelineState::Running, StateEvent::StepStarted { step_id }) =>
            PipelineStateMachine { current_step_id: Some(step_id), ..m },
        (PipelineState::Running, StateEvent::ApprovalRequested { approval_id }) =>
            PipelineStateMachine {
                state: PipelineState::AwaitingApproval,
                approval_request_id: Some(approval_id),
                ..m
            },
        (PipelineState::Running, StateEvent::StepFailed { retryable, .. }) =>
            if retryable { m } else { PipelineStateMachine { state: PipelineState::Failed, ..m } },
        (PipelineState::Running, StateEvent::Cancel) =>
            PipelineStateMachine { state: PipelineState::Cancelled, ..m },
        (PipelineState::Running, StateEvent::Complete) =>
            PipelineStateMachine { state: PipelineState::Completed, ..m },
        (PipelineState::AwaitingApproval, StateEvent::ApprovalGranted) =>
            PipelineStateMachine {
                state: PipelineState::Running,
                approval_request_id: None,
                ..m
            },
        (PipelineState::AwaitingApproval, StateEvent::ApprovalDenied) =>
            PipelineStateMachine { state: PipelineState::Failed, approval_request_id: None, ..m },
        (PipelineState::AwaitingApproval, StateEvent::ApprovalTimeout) =>
            PipelineStateMachine { state: PipelineState::Failed, approval_request_id: None, ..m },
        _ => m,
    }
}

/// The name of a state, as it is written in transition errors.
pub open spec fn state_name(s: PipelineState) -> Seq<char> {
    match s {
        PipelineState::Pending => "Pending"@,
        PipelineState::Running => "Running"@,
        PipelineState::AwaitingApproval => "AwaitingApproval"@,
        PipelineState::Completed => "Completed"@,
        PipelineState::Failed => "Failed"@,
        PipelineState::Cancelled => "Cancelled"@,
    }
}

/// The name of an event variant, as it is written in transition errors.
pub open spec fn event_name(e: StateEvent) -> Seq<char> {
    match e {
        StateEvent::Start => "Start"@,
        StateEvent::StepStarted { .. } => "StepStarted"@,
        StateEvent::ApprovalRequested { .. } => "ApprovalRequested"@,
        StateEvent::ApprovalGranted => "ApprovalGranted"@,
        StateEvent::ApprovalDenied => "ApprovalDenied"@,
        StateEvent::ApprovalTimeout => "ApprovalTimeout"@,
        StateEvent::StepCompleted { .. } => "StepCompleted"@,
        StateEvent::StepFailed { .. } => "StepFailed"@,
        StateEvent::CompensateCompleted => "CompensateCompleted"@,
        StateEvent::Cancel => "Cancel"@,
        StateEvent::Complete => "Complete"@,
    }
}

/// An event as `{:?}` writes it: its variant's name, then its fields.
pub open spec fn event_debug(e: StateEvent) -> Seq<char> {
    match e {
        StateEvent::StepStarted { step_id } => "StepStarted { step_id: "@ + str_debug(step_id@) + " }"@,
        StateEvent::ApprovalRequested { approval_id } => "ApprovalRequested { approval_id: "@ + str_debug(approval_id@) + " }"@,
        StateEvent::StepCompleted { step_id } => "StepCompleted { step_id: "@ + str_debug(step_id@) + " }"@,
        StateEvent::StepFailed { step_id, retryable } => "StepFailed { step_id: "@ + str_debug(step_id@) + ", retryable: "@
            + (if retryable { "true"@ } else { "false"@ }) + " }"@,
        _ => event_name(e),
    }
}

/// The reason text of a rejected transition: the state and the event, as
/// `{:?}` writes them.
pub open spec fn rejection_reason(s: PipelineState, e: StateEvent) -> Seq<char> {
    "no transition defined for "@ + state_name(s) + " + "@ + event_debug(e)
}

impl PipelineState {
    /// The variant name of this state.
    pub fn name(&self) -> (r: &'static str)
        ensures
            r@ == state_name(*self),
    {
        proof {
            reveal_strlit("Pending");
            reveal_strlit("Running");
            reveal_strlit("AwaitingApproval");
            reveal_strlit("Completed");
            reveal_strlit("Failed");
            reveal_strlit("Cancelled");
        }
        match self {
            PipelineState::Pending => "Pending",
            PipelineState::Running => "Running",
            PipelineState::AwaitingApproval => "AwaitingApproval",
            PipelineState::Completed => "Completed",
            PipelineState::Failed => "Failed",
            PipelineState::Cancelled => "Cancelled",
        }
    }
}

impl StateEvent {
    /// The event as `{:?}` writes it (see `event_debug`).
    pub fn debug_text(&self) -> (r: String)
        ensures
            r@ == event_debug(*self),
    {
        match self {
            StateEvent::StepStarted { step_id } => {
                let q = debug_quoted(step_id.as_str());
                concat3("StepStarted { step_id: ", q.as_str(), " }")
            },
            StateEvent::ApprovalRequested { approval_id } => {
                let q = debug_quoted(approval_id.as_str());
                concat3("ApprovalRequested { approval_id: ", q.as_str(), " }")
            },
            StateEvent::StepCompleted { step_id } => {
                let q = debug_quoted(step_id.as_str());
                concat3("StepCompleted { step_id: ", q.as_str(), " }")
            },
            StateEvent::StepFailed { step_id, retryable } => {
                let q = debug_quoted(step_id.as_str());
                let head = concat3("StepFailed { step_id: ", q.as_str(), ", retryable: ");
                concat3(head.as_str(), if *retryable { "true" } else { "false" }, " }")
            },
            _ => owned(self.name()),
        }
    }

    /// The variant name of this event.
    pub fn name(&self) -> (r: &'static str)
        ensures
            r@ == event_name(*self),
    {
        match self {
            StateEvent::Start => "Start",
            StateEvent::StepStarted { .. } => "StepStarted",
            StateEvent::ApprovalRequested { .. } => "ApprovalRequested",
            StateEvent::ApprovalGranted => "ApprovalGranted",
            StateEvent::ApprovalDenied => "ApprovalDenied",
            StateEvent::ApprovalTimeout => "ApprovalTimeout",
            StateEvent::StepCompleted { .. } => "StepCompleted",
            StateEvent::StepFailed { .. } => "StepFailed",
            StateEvent::CompensateCompleted => "CompensateCompleted",
            StateEvent::Cancel => "Cancel",
            StateEvent::Complete => "Complete",
        }
    }
}

impl PipelineStateMachine {
    /// A new machine in `Pending`, with no current step and no pending approval.
    pub fn new(pipeline_id: String) -> (r: Self)
        ensures
            r.pipeline_id == pipeline_id,
            r.state == PipelineState::Pending,
            r.current_step_id is None,
            r.approval_request_id is None,
    {
        PipelineStateMachine {
            pipeline_id,
            state: PipelineState::Pending,
            current_step_id: None,
            approval_request_id: None,
        }
    }

    /// Applies `event`; an event that the current state does not accept is
    /// rejected and leaves the machine unchanged.
    pub fn transition(&mut self, event: StateEvent) -> (r: Result<(), StateTransitionError>)
        ensures
            r is Ok <==> transition_defined(old(self).state, event),
            r is Ok ==> *final(self) == apply_event(*old(self), event),
            r matches Err(err) ==> {
                &&& *final(self) == *old(self)
                &&& err.from == old(self).state
                &&& err.event == event
                &&& err.reason@ == rejection_reason(old(self).state, event)
            },
    {
        match self.state {
            PipelineState::Pending => {
                if let StateEvent::Start = event {
                    self.state = PipelineState::Running;
                    return Ok(());
                }
            },
            PipelineState::Running => {
                match event {
                    StateEvent::StepStarted { step_id } => {
                        self.current_step_id = Some(step_id);
                        return Ok(());
                    },
                    StateEvent::ApprovalRequested { approval_id } => {
                        self.state = PipelineState::AwaitingApproval;
                        self.approval_request_id = Some(approval_id);
                        return Ok(());
                    },
                    StateEvent::StepCompleted { .. } => {
                        return Ok(());
                    },
                    StateEvent::StepFailed { retryable, .. } => {
                        if !retryable {
                            self.state = PipelineState::Failed;
                        }
                        return Ok(());
                    },
                    StateEvent::Cancel => {
                        self.state = PipelineState::Cancelled;
                        return Ok(());
                    },
                    StateEvent::Complete => {
                        self.state = PipelineState::Completed;
                        return Ok(());
                    },
                    _ => {},
                }
            },
            PipelineState::AwaitingApproval => {
                match event {
                    StateEvent::ApprovalGranted => {
                        self.state = PipelineState::Running;
                        self.approval_request_id = None;
                        return Ok(());
                    },
                    StateEvent::ApprovalDenied | StateEvent::ApprovalTimeout => {
                        self.state = PipelineState::Failed;
                        self.approval_request_id = None;
                        return Ok(());
                    },
                    _ => {},
                }
            },
            PipelineState::Failed | PipelineState::Cancelled => {
                if let StateEvent::CompensateCompleted = event {
                    return Ok(());
                }
            },
            PipelineState::Completed => {},
        }
        let head = concat3("no transition defined for ", self.state.name(), " + ");
        let reason = concat2(head.as_str(), event.debug_text().as_str());
        proof {
            reveal_strlit("no transition defined for ");
            reveal_strlit(" + ");
        }
        Err(StateTransitionError { from: self.state, event, reason })
    }
}

/// A lifecycle that has completed, failed or been cancelled stays so: no
/// event moves it to another state.
pub proof fn law_ended_lifecycle_stays_ended(m: PipelineStateMachine, event: StateEvent)
    requires
        m.state == PipelineState::Completed || m.state == PipelineState::Failed || m.state == PipelineState::Cancelled,
    ensures
        apply_event(m, event).state == m.state,
        m.state == PipelineState::Completed ==> !transition_defined(m.state, event),
{
}

/// No transition leads back to pending.
pub proof fn law_no_return_to_pending(m: PipelineStateMachine, event: StateEvent)
    requires
        transition_defined(m.state, event),
    ensures
        apply_event(m, event).state != PipelineState::Pending,
{
}

/// Waiting for approval, a timed-out or denied approval fails the pipeline
/// and clears the request; only a granted approval returns it to running.
pub proof fn law_approval_outcomes(m: PipelineStateMachine, event: StateEvent)
    requires
        m.state == PipelineState::AwaitingApproval,
    ensures
        transition_defined(m.state, StateEvent::ApprovalTimeout),
        apply_event(m, StateEvent::ApprovalTimeout).state == PipelineState::Failed,
        apply_event(m, StateEvent::ApprovalTimeout).approval_request_id is None,
        transition_defined(m.state, StateEvent::ApprovalDenied),
        apply_event(m, StateEvent::ApprovalDenied).state == PipelineState::Failed,
        apply_event(m, StateEvent::ApprovalDenied).approval_request_id is None,
        transition_defined(m.state, event) && apply_event(m, event).state == PipelineState::Running ==> event
            == StateEvent::ApprovalGranted,
{
}

/// The lifecycle's moves: a pending pipeline only starts; a running one
/// completes, is cancelled, fails on a failure that is not retried, waits on a
/// requested approval and keeps running through its steps; no event changes
/// the pipeline's id.
pub proof fn law_lifecycle_moves(m: PipelineStateMachine, event: StateEvent, step_id: String, approval_id: String)
    ensures
        apply_event(m, event).pipeline_id == m.pipeline_id,
        m.state == PipelineState::Pending ==> (transition_defined(m.state, event) <==> event == StateEvent::Start),
        m.state == PipelineState::Pending ==> apply_event(m, StateEvent::Start).state == PipelineState::Running,
        m.state == PipelineState::Running ==> apply_event(m, StateEvent::Complete).state == PipelineState::Completed,
        m.state == PipelineState::Running ==> apply_event(m, StateEvent::Cancel).state == PipelineState::Cancelled,
        m.state == PipelineState::Running ==> apply_event(m, StateEvent::StepFailed { step_id, retryable: false }).state
            == PipelineState::Failed,
        m.state == PipelineState::Running ==> apply_event(m, StateEvent::StepFailed { step_id, retryable: true }) == m,
        m.state == PipelineState::Running ==> apply_event(m, StateEvent::ApprovalRequested { approval_id }).state
            == PipelineState::AwaitingApproval && apply_event(m, StateEvent::ApprovalRequested { approval_id }).approval_request_id
            == Some(approval_id),
        m.state == PipelineState::Running ==> apply_event(m, StateEvent::StepStarted { step_id }).state == PipelineState::Running
            && apply_event(m, StateEvent::StepStarted { step_id }).current_step_id == Some(step_id),
        m.state == PipelineState::Running ==> apply_event(m, StateEvent::StepCompleted { step_id }).state == PipelineState::Running,
        m.state == PipelineState::AwaitingApproval ==> apply_event(m, StateEvent::ApprovalGranted).state == PipelineState::Running
            && apply_event(m, StateEvent::ApprovalGranted).approval_request_id is None,
{
}

} // verus!
