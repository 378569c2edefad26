use seaki::wiki::source::{ImportStage, SourceIngestState, RAW_SOURCE_STORAGE};

#[test]
fn mod_wiki_declares_append_only_source_layer() {
    assert_eq!(RAW_SOURCE_STORAGE, "append-only-content-addressed");
    assert!(SourceIngestState::Indexed.is_terminal());
    assert!(!SourceIngestState::ParseRunning.is_terminal());
}

#[test]
fn import_stage_names() {
    assert_eq!(ImportStage::RawCommitted.as_str(), "raw_committed");
    assert!(ImportStage::Failed.is_terminal());
    assert!(!ImportStage::Parsed.is_terminal());
}
