use seaki::pipe::event::{EventSink, EventSinkError, InMemoryEventSink, PipelineEvent};
use seaki::pipe::frame::FrameType;

fn sample_events() -> Vec<PipelineEvent> {
    vec![
        PipelineEvent::StepStarted {
            step_id: "s1".to_string(),
            command_id: "wiki.search".to_string(),
            timestamp_ms: 2,
        },
        PipelineEvent::CheckpointSaved { step_id: "s1".to_string(), timestamp_ms: 4 },
        PipelineEvent::StepCompleted {
            step_id: "s1".to_string(),
            output_frame_count: 1,
            timestamp_ms: 5,
        },
        PipelineEvent::StepStarted {
            step_id: "s2".to_string(),
            command_id: "citation.resolve".to_string(),
            timestamp_ms: 6,
        },
        PipelineEvent::StepFailed {
            step_id: "s2".to_string(),
            error_kind: "QuotaExceeded".to_string(),
            retryable: true,
            timestamp_ms: 7,
        },
        PipelineEvent::PipelineCompleted {
            pipeline_id: "pipe-1".to_string(),
            final_state: "failed".to_string(),
            timestamp_ms: 8,
        },
    ]
}

#[test]
fn event_sink_error_display() {
    let io_err = EventSinkError::IoError("disk full".to_string());
    assert_eq!(io_err.to_string(), "event sink I/O error: disk full");

    let ser_err = EventSinkError::SerializeError("bad json".to_string());
    assert_eq!(ser_err.to_string(), "event sink serialization error: bad json");
}

#[test]
fn in_memory_sink_collects_events() {
    let mut sink = InMemoryEventSink::new();
    let events = sample_events();
    for event in &events {
        sink.emit(event.clone());
    }
    assert_eq!(sink.events(), events);
}

#[test]
fn in_memory_sink_filters_by_step() {
    let mut sink = InMemoryEventSink::new();
    let events = sample_events();
    for event in &events {
        sink.emit(event.clone());
    }
    let s1_events = sink.events_for_step("s1");
    assert_eq!(s1_events.len(), 3);
    assert!(s1_events.iter().all(|e| e.step_id() == Some("s1")));
    let s2_events = sink.events_for_step("s2");
    assert_eq!(s2_events.len(), 2);
    assert!(sink.events_for_step("nonexistent").is_empty());
}

#[test]
fn event_replay_order_preserved() {
    let mut sink = InMemoryEventSink::new();
    let events = sample_events();
    for event in &events {
        sink.emit(event.clone());
    }
    assert_eq!(sink.replay(), events);
    assert!(sink.flush().is_ok());
}

#[test]
fn payload_summary_truncation() {
    let long_payload: serde_json::Value =
        serde_json::from_str(&format!("{{\"text\": \"{}\"}}", "a".repeat(300))).unwrap();
    let event = PipelineEvent::frame("s1".to_string(), 0, &FrameType::JsonValue, &long_payload).unwrap();
    match &event {
        PipelineEvent::Frame { payload_summary, frame_type, .. } => {
            assert_eq!(payload_summary.len(), 203);
            assert!(payload_summary.ends_with("..."));
            assert_eq!(frame_type, "JsonValue");
        }
        _ => panic!("expected Frame event"),
    }
}

#[test]
fn payload_summary_keeps_short_payloads_and_refuses_split_characters() {
    let short: serde_json::Value = serde_json::from_str(r#"{"x": 1}"#).unwrap();
    match PipelineEvent::frame("s1".to_string(), 3, &FrameType::TextAnswer, &short).unwrap() {
        PipelineEvent::Frame { payload_summary, seq, .. } => {
            assert_eq!(payload_summary, r#"{"x":1}"#);
            assert_eq!(seq, 3);
        }
        _ => panic!("expected Frame event"),
    }
    // `{"t":"a` is 7 bytes, so the two-byte characters after it start at odd
    // offsets and byte 200 falls inside one.
    let cut: serde_json::Value = serde_json::from_str(&format!("{{\"t\": \"a{}\"}}", "\u{e9}".repeat(120))).unwrap();
    assert!(PipelineEvent::frame("s1".to_string(), 0, &FrameType::JsonValue, &cut).is_none());
}
