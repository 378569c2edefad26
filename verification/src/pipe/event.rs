//! Pipeline events and the in-memory sink that collects them.

use vstd::prelude::*;

use vstd::utf8::{decode_utf8, encode_utf8, is_char_boundary};

use crate::json::{clone_json, json_text, to_json_text};
use crate::pipe::frame::{frame_type_name, FrameType};
use crate::text::{concat2, owned};

verus! {

/// An event of a pipeline run.
#[derive(Debug, PartialEq, Eq)]
pub enum PipelineEvent {
    PipelineStarted { pipeline_id: String, input: serde_json::Value, timestamp_ms: u64 },
    StepStarted { step_id: String, command_id: String, timestamp_ms: u64 },
    Frame { step_id: String, seq: u64, frame_type: String, payload_summary: String },
    CheckpointSaved { step_id: String, timestamp_ms: u64 },
    StepCompleted { step_id: String, output_frame_count: usize, timestamp_ms: u64 },
    StepFailed { step_id: String, error_kind: String, retryable: bool, timestamp_ms: u64 },
    ApprovalRequested { step_id: String, approval_id: String, reason: String, timestamp_ms: u64 },
    ApprovalDecided { step_id: String, approval_id: String, approved: bool, timestamp_ms: u64 },
    PipelineCompleted { pipeline_id: String, final_state: String, timestamp_ms: u64 },
}

impl Clone for PipelineEvent {
    fn clone(&self) -> (r: Self)
        ensures
            r == *self,
    {
        match self {
            PipelineEvent::PipelineStarted { pipeline_id, input, timestamp_ms } => PipelineEvent::PipelineStarted {
                pipeline_id: pipeline_id.clone(),
                input: clone_json(input),
                timestamp_ms: *timestamp_ms,
            },
            PipelineEvent::StepStarted { step_id, command_id, timestamp_ms } => PipelineEvent::StepStarted {
                step_id: step_id.clone(),
                command_id: command_id.clone(),
                timestamp_ms: *timestamp_ms,
            },
            PipelineEvent::Frame { step_id, seq, frame_type, payload_summary } => PipelineEvent::Frame {
                step_id: step_id.clone(),
                seq: *seq,
                frame_type: frame_type.clone(),
                payload_summary: payload_summary.clone(),
            },
            PipelineEvent::CheckpointSaved { step_id, timestamp_ms } => PipelineEvent::CheckpointSaved {
                step_id: step_id.clone(),
                timestamp_ms: *timestamp_ms,
            },
            PipelineEvent::StepCompleted { step_id, output_frame_count, timestamp_ms } => PipelineEvent::StepCompleted {
                step_id: step_id.clone(),
                output_frame_count: *output_frame_count,
                timestamp_ms: *timestamp_ms,
            },
            PipelineEvent::StepFailed { step_id, error_kind, retryable, timestamp_ms } => PipelineEvent::StepFailed {
                step_id: step_id.clone(),
                error_kind: error_kind.clone(),
                retryable: *retryable,
                timestamp_ms: *timestamp_ms,
            },
            PipelineEvent::ApprovalRequested { step_id, approval_id, reason, timestamp_ms } =>
                PipelineEvent::ApprovalRequested {
                step_id: step_id.clone(),
                approval_id: approval_id.clone(),
                reason: reason.clone(),
                timestamp_ms: *timestamp_ms,
            },
            PipelineEvent::ApprovalDecided { step_id, approval_id, approved, timestamp_ms } =>
                PipelineEvent::ApprovalDecided {
                step_id: step_id.clone(),
                approval_id: approval_id.clone(),
                approved: *approved,
                timestamp_ms: *timestamp_ms,
            },
            PipelineEvent::PipelineCompleted { pipeline_id, final_state, timestamp_ms } => PipelineEvent::PipelineCompleted {
                pipeline_id: pipeline_id.clone(),
                final_state: final_state.clone(),
                timestamp_ms: *timestamp_ms,
            },
        }
    }
}

/// The step an event belongs to; pipeline-level events belong to none.
pub open spec fn event_step(e: PipelineEvent) -> Option<Seq<char>> {
    match e {
        PipelineEvent::StepStarted { step_id, .. } => Some(step_id@),
        PipelineEvent::Frame { step_id, .. } => Some(step_id@),
        PipelineEvent::CheckpointSaved { step_id, .. } => Some(step_id@),
        PipelineEvent::StepCompleted { step_id, .. } => Some(step_id@),
        PipelineEvent::StepFailed { step_id, .. } => Some(step_id@),
        PipelineEvent::ApprovalRequested { step_id, .. } => Some(step_id@),
        PipelineEvent::ApprovalDecided { step_id, .. } => Some(step_id@),
        PipelineEvent::PipelineStarted { .. } => None,
        PipelineEvent::PipelineCompleted { .. } => None,
    }
}

impl PipelineEvent {
    /// The step this event belongs to, if any.
    pub fn step_id(&self) -> (r: Option<&str>)
        ensures
            r matches Some(s) ==> event_step(*self) == Some(s@),
            r is None ==> event_step(*self) is None,
    {
        match self {
            PipelineEvent::StepStarted { step_id, .. } => Some(step_id.as_str()),
            PipelineEvent::Frame { step_id, .. } => Some(step_id.as_str()),
            PipelineEvent::CheckpointSaved { step_id, .. } => Some(step_id.as_str()),
            PipelineEvent::StepCompleted { step_id, .. } => Some(step_id.as_str()),
            PipelineEvent::StepFailed { step_id, .. } => Some(step_id.as_str()),
            PipelineEvent::ApprovalRequested { step_id, .. } => Some(step_id.as_str()),
            PipelineEvent::ApprovalDecided { step_id, .. } => Some(step_id.as_str()),
            PipelineEvent::PipelineStarted { .. } => None,
            PipelineEvent::PipelineCompleted { .. } => None,
        }
    }

    /// The event of a frame: its step, number and type, and its payload's
    /// JSON text cut to its first 200 bytes and marked `...` when longer
    /// (see `payload_summary`). `None` when byte 200 of a longer text falls
    /// inside a character, where the text cannot be cut.
    pub fn frame(step_id: String, seq: u64, frame_type: &FrameType, payload: &serde_json::Value) -> (r: Option<
        PipelineEvent,
    >)
        ensures
            r is None <==> !summary_fits(json_text(*payload)),
            r matches Some(e) ==> (e matches PipelineEvent::Frame { step_id: s, seq: n, frame_type: t, payload_summary: p }
                && s == step_id && n == seq && t@ == frame_type_name(*frame_type) && p@ == payload_summary(
                json_text(*payload),
            )),
    {
        let text = to_json_text(payload);
        if text.as_str().as_bytes().len() > 200 && !text.as_str().is_char_boundary(200) {
            return None;
        }
        let summary = summarize_payload(text.as_str());
        Some(PipelineEvent::Frame { step_id, seq, frame_type: owned(frame_type.as_str()), payload_summary: summary })
    }
}

/// A text whose first 200 bytes, if it has more, end on a character.
pub open spec fn summary_fits(t: Seq<char>) -> bool {
    encode_utf8(t).len() > 200 ==> is_char_boundary(encode_utf8(t), 200)
}

/// The summary of a payload's text: the text, or its first 200 bytes and `...`.
pub open spec fn payload_summary(t: Seq<char>) -> Seq<char> {
    if encode_utf8(t).len() > 200 {
        decode_utf8(encode_utf8(t).subrange(0, 200)) + "..."@
    } else {
        t
    }
}

/// Cuts a payload's text for an event (see `payload_summary`).
pub fn summarize_payload(text: &str) -> (r: String)
    requires
        summary_fits(text@),
    ensures
        r@ == payload_summary(text@),
{
    if text.as_bytes().len() > 200 {
        let (head, _rest) = text.split_at(200);
        proof {
            vstd::utf8::encode_utf8_decode_utf8(head@);
        }
        concat2(head, "...")
    } else {
        owned(text)
    }
}

#[derive(Debug, Clone, PartialEq, Eq)]
pub enum EventSinkError {
    IoError(String),
    SerializeError(String),
}

pub open spec fn sink_error_text(e: EventSinkError) -> Seq<char> {
    match e {
        EventSinkError::IoError(m) => "event sink I/O error: "@ + m@,
        EventSinkError::SerializeError(m) => "event sink serialization error: "@ + m@,
    }
}

impl EventSinkError {
    /// The error message.
    pub fn to_string(&self) -> (r: String)
        ensures
            r@ == sink_error_text(*self),
    {
        match self {
            EventSinkError::IoError(m) => concat2("event sink I/O error: ", m.as_str()),
            EventSinkError::SerializeError(m) => concat2("event sink serialization error: ", m.as_str()),
        }
    }
}

/// Where the events of a run go.
pub trait EventSink {
    /// Takes one event.
    fn emit(&mut self, event: PipelineEvent);

    /// Makes the events taken so far durable.
    fn flush(&mut self) -> Result<(), EventSinkError>;
}

/// The events of one step, in the order they came.
pub open spec fn events_of_step(s: Seq<PipelineEvent>, step: Seq<char>) -> Seq<PipelineEvent>
    decreases s.len(),
{
    if s.len() == 0 {
        Seq::<PipelineEvent>::empty()
    } else if event_step(s.last()) == Some(step) {
        events_of_step(s.drop_last(), step).push(s.last())
    } else {
        events_of_step(s.drop_last(), step)
    }
}

/// Collects events in memory, in the order they are emitted.
#[derive(Debug, Default)]
pub struct InMemoryEventSink {
    events: Vec<PipelineEvent>,
}

impl InMemoryEventSink {
    pub closed spec fn collected(&self) -> Seq<PipelineEvent> {
        self.events@
    }

    pub fn new() -> (r: Self)
        ensures
            r.collected() == Seq::<PipelineEvent>::empty(),
    {
        InMemoryEventSink { events: Vec::new() }
    }

    /// The events collected so far.
    pub fn events(&self) -> (r: Vec<PipelineEvent>)
        ensures
            r@ == self.collected(),
    {
        let mut out: Vec<PipelineEvent> = Vec::new();
        let mut i: usize = 0;
        while i < self.events.len()
            invariant
                i <= self.events@.len(),
                out@ == self.events@.take(i as int),
            decreases self.events@.len() - i,
        {
            out.push(self.events[i].clone());
            assert(out@ =~= self.events@.take(i + 1));
            i = i + 1;
        }
        assert(self.events@.take(i as int) =~= self.events@);
        out
    }

    /// The events of step `step_id`, in order.
    pub fn events_for_step(&self, step_id: &str) -> (r: Vec<PipelineEvent>)
        ensures
            r@ == events_of_step(self.collected(), step_id@),
    {
        let mut out: Vec<PipelineEvent> = Vec::new();
        let mut i: usize = 0;
        while i < self.events.len()
            invariant
                i <= self.events@.len(),
                out@ == events_of_step(self.events@.take(i as int), step_id@),
            decreases self.events@.len() - i,
        {
            assert(self.events@.take(i + 1).drop_last() =~= self.events@.take(i as int));
            let e = &self.events[i];
            match e.step_id() {
                Some(s) => {
                    if crate::text::str_eq(s, step_id) {
                        out.push(e.clone());
                    }
                },
                None => {},
            }
            i = i + 1;
        }
        assert(self.events@.take(i as int) =~= self.events@);
        out
    }

    /// The events in the order they are to be replayed: as emitted.
    pub fn replay(&self) -> (r: Vec<PipelineEvent>)
        ensures
            r@ == self.collected(),
    {
        self.events()
    }
}

impl EventSink for InMemoryEventSink {
    fn emit(&mut self, event: PipelineEvent)
        ensures
            final(self).collected() == old(self).collected().push(event),
    {
        self.events.push(event);
    }

    fn flush(&mut self) -> (r: Result<(), EventSinkError>)
        ensures
            r is Ok,
            final(self).collected() == old(self).collected(),
    {
        Ok(())
    }
}

} // verus!
