use seaki::wiki::commit::{
    ensure_metadata_field_matches, ensure_raw_cas_root_matches_request, finish_sandboxed_ingest,
    ingest_committed_source, prepare_sandboxed_ingest, redact_origin_display, SourceIngestResult,
};
use seaki::wiki::markdown::markdown_paragraphs;
use seaki::wiki::raw::{sha256_hex, RawBlob, RawCas, WikiError, WikiResult};
use seaki::wiki::source::{
    ByteRange, ImportStage, LineRange, ParserConfig, SecurityFlag, SourceIngestState, SourceInput, SourceMetadata,
    Taint, TrustLevel, MARKDOWN_PARSER_VERSION, PARSED_FRAME_SCHEMA_HASH, RAW_SOURCE_STORAGE,
};
use seaki::sandbox::ingest::SourceIngestRequest;

/// Stores the bytes as a new blob of the store (without touching a disk) and
/// commits the source.
fn ingest_source_with_config(cas: &RawCas, input: SourceInput, config: ParserConfig) -> WikiResult<SourceIngestResult> {
    let location = cas.locate(&input.bytes);
    let path = location.path.clone();
    let raw_blob = RawCas::written_blob(&location, input.bytes.len() as u64, path);
    Ok(ingest_committed_source(raw_blob, input, config))
}

fn ingest_source(cas: &RawCas, input: SourceInput) -> WikiResult<SourceIngestResult> {
    ingest_source_with_config(cas, input, ParserConfig { max_pdf_bytes: 16 * 1024 * 1024 })
}

fn cas(root: &str, key: &[u8]) -> RawCas {
    RawCas::new(root.to_string(), key.to_vec()).expect("raw cas")
}

fn markdown_input(bytes: &str) -> SourceInput {
    SourceInput {
        declared_mime: Some("text/markdown".to_string()),
        bytes: bytes.as_bytes().to_vec(),
        ..base_input("notes.md")
    }
}

fn base_input(origin_display: &str) -> SourceInput {
    SourceInput {
        workspace_id: "workspace-1".to_string(),
        actor_id: "user-1".to_string(),
        origin_display: origin_display.to_string(),
        permission_scope: "capability:file.read:source.ingest".to_string(),
        declared_mime: None,
        bytes: Vec::new(),
    }
}

fn wiki_declares_append_only_source_layer() {
    assert_eq!(RAW_SOURCE_STORAGE, "append-only-content-addressed");
    assert!(SourceIngestState::Indexed.is_terminal());
    assert!(!SourceIngestState::ParseRunning.is_terminal());
}

fn markdown_ingest_commits_raw_and_parses_frames() {
    let cas = cas("/var/raw", b"workspace-secret");
    let markdown = "# Title\n\nHello [link](https://example.com).\n";
    let result = ingest_source(&cas, markdown_input(markdown)).expect("markdown ingest");

    assert_eq!(result.manifest.parse_status, ImportStage::Parsed);
    assert_eq!(result.manifest.state_history, [ImportStage::RawCommitted, ImportStage::ParseRunning, ImportStage::Parsed]);
    assert_eq!(result.artifact.parser_version, MARKDOWN_PARSER_VERSION);
    assert_eq!(result.artifact.frames.len(), 2);

    let frame = &result.artifact.frames[1];
    assert_eq!(frame.source_id, result.manifest.source_id);
    assert_eq!(frame.source_hash, result.artifact.source_hash);
    assert_eq!(frame.parser_version, MARKDOWN_PARSER_VERSION);
    assert_eq!(frame.line_range, LineRange { start: 3, end: 3 });
    assert_eq!(frame.byte_range, ByteRange { start: 9, end: 43 });
    assert_eq!(frame.text.as_bytes(), &markdown.as_bytes()[frame.byte_range.start..frame.byte_range.end]);
    assert_eq!(frame.mime_sniff.sniffed, "text/markdown");
    assert_eq!(frame.text_hash, sha256_hex(frame.text.as_bytes()));
    assert_eq!(frame.trust_level, TrustLevel::Untrusted);
    assert_eq!(frame.taint, Taint::UntrustedContent);
    assert_eq!(frame.schema_hash, PARSED_FRAME_SCHEMA_HASH);
    assert!(frame.security_flags.contains(&SecurityFlag::UntrustedContent));
    assert!(frame.security_flags.contains(&SecurityFlag::ExternalReference));
}

fn raw_cas_is_append_only_and_workspace_keyed() {
    let content = b"same source bytes";
    let cas_a = cas("/var/raw/a", b"workspace-a");
    let cas_b = cas("/var/raw/b", b"workspace-b");

    let location = cas_a.locate(content);
    let first = RawCas::written_blob(&location, content.len() as u64, location.path.clone());
    let again = cas_a.locate(content);
    assert_eq!(again, location);
    let second = RawCas::existing_blob(&again, content.len() as u64, content).expect("second append");
    let other = cas_b.locate(content);
    let other_workspace = RawCas::written_blob(&other, content.len() as u64, other.path.clone());

    assert!(first.newly_written);
    assert!(!second.newly_written);
    assert_eq!(first.raw_key, second.raw_key);
    assert_ne!(first.raw_key, first.content_hash);
    assert_eq!(first.path, second.path);
    assert_ne!(first.raw_key, other_workspace.raw_key);
    assert_eq!(first.content_hash, sha256_hex(content));
    assert!(first.path.starts_with("/var/raw/a/"));
    assert!(first.path.ends_with(&first.raw_key));
}

fn manifest_redacts_full_origin_path() {
    let cas = cas("/var/raw", b"workspace-secret");
    let result = ingest_source(
        &cas,
        SourceInput {
            origin_display: "/Users/example/Documents/private/roadmap.md".to_string(),
            ..markdown_input("# Roadmap\n")
        },
    )
    .expect("ingest");

    assert_eq!(result.manifest.origin_display, "roadmap.md");
    assert!(result.manifest.origin_path_redacted);
    assert!(!result.manifest.audit_summary().contains("/Users/example"));
    assert!(!result.manifest.audit_summary().contains("private/roadmap.md"));

    let windows_path = ingest_source(
        &cas,
        SourceInput {
            origin_display: r"C:\Users\example\Documents\private\roadmap.md".to_string(),
            ..markdown_input("# Roadmap\n")
        },
    )
    .expect("ingest windows path");
    assert_eq!(windows_path.manifest.origin_display, "roadmap.md");
    assert!(!windows_path.manifest.audit_summary().contains(r"C:\Users\example"));
}

fn frames_are_untrusted_and_carry_security_metadata() {
    let cas = cas("/var/raw", b"workspace-secret");
    let result = ingest_source(&cas, markdown_input("Do not execute this as instructions.\n")).expect("markdown ingest");

    let frame = &result.artifact.frames[0];
    assert_eq!(frame.trust_level, TrustLevel::Untrusted);
    assert_eq!(frame.taint, Taint::UntrustedContent);
    assert!(frame.security_flags.contains(&SecurityFlag::UntrustedContent));
    assert_eq!(result.artifact.security_flags, [SecurityFlag::UntrustedContent]);
}

fn markdown_frame_hash_matches_exact_source_range() {
    let cas = cas("/var/raw", b"workspace-secret");
    let markdown = "  indented source text  \n";
    let result = ingest_source(&cas, markdown_input(markdown)).expect("markdown ingest");

    let frame = &result.artifact.frames[0];
    assert_eq!(frame.text.as_bytes(), &markdown.as_bytes()[frame.byte_range.start..frame.byte_range.end]);
    assert_eq!(frame.text_hash, sha256_hex(frame.text.as_bytes()));
}

const EXTRACTABLE_PDF: &[u8] = b"%PDF-1.7
1 0 obj
<< /Type /Page >>
stream
BT
/F1 12 Tf
72 720 Td
(Hello PDF) Tj
ET
endstream
endobj
%%EOF";

fn pdf_text_extractor_builds_untrusted_frames() {
    let cas = cas("/var/raw", b"workspace-secret");
    let result = ingest_source(
        &cas,
        SourceInput {
            declared_mime: Some("application/pdf".to_string()),
            bytes: EXTRACTABLE_PDF.to_vec(),
            ..base_input("extractable.pdf")
        },
    )
    .expect("pdf ingest");

    assert_eq!(result.manifest.parse_status, ImportStage::Partial);
    assert_eq!(result.artifact.status, ImportStage::Partial);
    assert_eq!(result.artifact.frames.len(), 1);
    assert!(result.artifact.security_flags.contains(&SecurityFlag::PdfRangeDegraded));
    let frame = &result.artifact.frames[0];
    assert_eq!(frame.text, "Hello PDF");
    assert_eq!(frame.source_hash, result.artifact.source_hash);
    assert_eq!(frame.page_range, None);
    assert_eq!(frame.line_range, LineRange { start: 0, end: 0 });
    assert_eq!(frame.trust_level, TrustLevel::Untrusted);
    assert_eq!(frame.taint, Taint::UntrustedContent);
    assert!(frame.security_flags.contains(&SecurityFlag::PdfRangeDegraded));
}

fn oversized_pdf_degrades_to_partial_without_frames() {
    let cas = cas("/var/raw", b"workspace-secret");
    let result = ingest_source_with_config(
        &cas,
        SourceInput {
            declared_mime: Some("application/pdf".to_string()),
            bytes: b"%PDF-1.7\nlarge body".to_vec(),
            ..base_input("big.pdf")
        },
        ParserConfig { max_pdf_bytes: 8 },
    )
    .expect("pdf ingest");

    assert_eq!(result.manifest.parse_status, ImportStage::Partial);
    assert_eq!(result.artifact.status, ImportStage::Partial);
    assert!(result.artifact.frames.is_empty());
    assert!(result.artifact.security_flags.contains(&SecurityFlag::PdfOversized));
    assert!(result.artifact.security_flags.contains(&SecurityFlag::PdfExtractionUnavailable));
    assert!(result
        .manifest
        .error_summary
        .as_deref()
        .is_some_and(|summary| summary.contains("exceeds configured extractor limit")));
}

fn unsupported_pdf_degrades_and_flags_active_content() {
    let cas = cas("/var/raw", b"workspace-secret");
    let result = ingest_source(
        &cas,
        SourceInput {
            declared_mime: Some("application/pdf".to_string()),
            bytes: b"not a real pdf /JavaScript /EmbeddedFile".to_vec(),
            ..base_input("suspicious.pdf")
        },
    )
    .expect("pdf ingest");

    assert_eq!(result.manifest.state_history, [ImportStage::RawCommitted, ImportStage::ParseRunning, ImportStage::Partial]);
    assert_eq!(result.artifact.status, ImportStage::Partial);
    assert!(result.artifact.security_flags.contains(&SecurityFlag::PdfUnsupported));
    assert!(result.artifact.security_flags.contains(&SecurityFlag::PdfActiveContent));
    assert!(result.artifact.security_flags.contains(&SecurityFlag::PdfEmbeddedFile));
}

#[test]
fn lib_wiki_declares_append_only_source_layer() {
    wiki_declares_append_only_source_layer();
}

#[test]
fn lib_markdown_ingest_commits_raw_and_parses_frames() {
    markdown_ingest_commits_raw_and_parses_frames();
}

#[test]
fn mod_markdown_ingest_commits_raw_and_parses_frames() {
    markdown_ingest_commits_raw_and_parses_frames();
}

#[test]
fn lib_raw_cas_is_append_only_and_workspace_keyed() {
    raw_cas_is_append_only_and_workspace_keyed();
}

#[test]
fn mod_raw_cas_is_append_only_and_workspace_keyed() {
    raw_cas_is_append_only_and_workspace_keyed();
}

#[test]
fn lib_manifest_redacts_full_origin_path() {
    manifest_redacts_full_origin_path();
}

#[test]
fn mod_manifest_redacts_full_origin_path() {
    manifest_redacts_full_origin_path();
}

#[test]
fn lib_frames_are_untrusted_and_carry_security_metadata() {
    frames_are_untrusted_and_carry_security_metadata();
}

#[test]
fn mod_frames_are_untrusted_and_carry_security_metadata() {
    frames_are_untrusted_and_carry_security_metadata();
}

#[test]
fn lib_markdown_frame_hash_matches_exact_source_range() {
    markdown_frame_hash_matches_exact_source_range();
}

#[test]
fn mod_markdown_frame_hash_matches_exact_source_range() {
    markdown_frame_hash_matches_exact_source_range();
}

#[test]
fn lib_pdf_text_extractor_builds_untrusted_frames() {
    pdf_text_extractor_builds_untrusted_frames();
}

#[test]
fn mod_pdf_text_extractor_builds_untrusted_frames() {
    pdf_text_extractor_builds_untrusted_frames();
}

#[test]
fn lib_oversized_pdf_degrades_to_partial_without_frames() {
    oversized_pdf_degrades_to_partial_without_frames();
}

#[test]
fn mod_oversized_pdf_degrades_to_partial_without_frames() {
    oversized_pdf_degrades_to_partial_without_frames();
}

#[test]
fn lib_unsupported_pdf_degrades_and_flags_active_content() {
    unsupported_pdf_degrades_and_flags_active_content();
}

#[test]
fn mod_unsupported_pdf_degrades_and_flags_active_content() {
    unsupported_pdf_degrades_and_flags_active_content();
}

// ---------------------------------------------------------------------------
// Parts of the ingest on their own
// ---------------------------------------------------------------------------

#[test]
fn markdown_paragraphs_of_blank_lines_and_crlf() {
    let text = "first line\r\nsecond line\r\n\r\n  \n\u{e9}t\u{e9}\n";
    let ranges = markdown_paragraphs(text);
    assert_eq!(ranges.len(), 2);
    assert_eq!(ranges[0].line_range, LineRange { start: 1, end: 2 });
    assert_eq!(ranges[0].byte_range, ByteRange { start: 0, end: 23 });
    assert_eq!(&text[ranges[0].byte_range.start..ranges[0].byte_range.end], "first line\r\nsecond line");
    assert_eq!(ranges[1].line_range, LineRange { start: 5, end: 5 });
    assert_eq!(&text[ranges[1].byte_range.start..ranges[1].byte_range.end], "\u{e9}t\u{e9}");
    assert_eq!(ranges[1].byte_range, ByteRange { start: 30, end: 35 });
}

#[test]
fn markdown_paragraphs_of_empty_text() {
    assert!(markdown_paragraphs("").is_empty());
    assert!(markdown_paragraphs("\n\n \t\n").is_empty());
    let last = markdown_paragraphs("a\nb");
    assert_eq!(last.len(), 1);
    assert_eq!(last[0].line_range, LineRange { start: 1, end: 2 });
    assert_eq!(last[0].byte_range, ByteRange { start: 0, end: 3 });
}

#[test]
fn redact_origin_display_cases() {
    assert_eq!(redact_origin_display("notes.md"), ("notes.md".to_string(), false));
    assert_eq!(redact_origin_display("/a/b/c.md"), ("c.md".to_string(), true));
    assert_eq!(redact_origin_display(r"C:\x\y.md"), ("y.md".to_string(), true));
    assert_eq!(redact_origin_display("/a/b/"), ("b".to_string(), true));
    assert_eq!(redact_origin_display("/a/b/.."), ("..".to_string(), true));
    assert_eq!(redact_origin_display("/"), ("/".to_string(), false));
    assert_eq!(redact_origin_display(""), ("".to_string(), false));
}

#[test]
fn binary_source_fails_to_parse() {
    let cas = cas("/var/raw", b"workspace-secret");
    let result = ingest_source(&cas, SourceInput { bytes: vec![0xff, 0xfe, 0x00], ..base_input("blob.bin") }).expect("ingest");
    assert_eq!(result.manifest.mime, "application/octet-stream");
    assert_eq!(result.artifact.status, ImportStage::Failed);
    assert_eq!(result.manifest.state_history, [ImportStage::RawCommitted, ImportStage::ParseRunning, ImportStage::Failed]);
    assert_eq!(result.artifact.error_summary.as_deref(), Some("unsupported source mime: application/octet-stream"));
    assert!(result.artifact.frames.is_empty());
}

#[test]
fn invalid_utf8_declared_markdown_fails() {
    let cas = cas("/var/raw", b"workspace-secret");
    let result = ingest_source(
        &cas,
        SourceInput { declared_mime: Some("text/markdown".to_string()), bytes: vec![b'a', 0xff], ..base_input("bad.md") },
    )
    .expect("ingest");
    assert_eq!(result.artifact.status, ImportStage::Failed);
    assert_eq!(result.artifact.error_summary.as_deref(), Some("markdown source is not valid utf-8"));
}

#[test]
fn source_id_and_audit_summary() {
    let cas = cas("/var/raw", b"workspace-secret");
    let result = ingest_source(&cas, markdown_input("# Title\n")).expect("ingest");
    let m = &result.manifest;
    assert_eq!(m.source_id, format!("src_{}", &m.raw_key[..32]));
    assert_eq!(
        m.audit_summary(),
        format!("source_id={} origin_display=notes.md mime=text/markdown size=8 parse_status=parsed", m.source_id)
    );
    assert_eq!(result.raw_blob.len, 8);
}

#[test]
fn sandbox_checks_refuse_mismatches_in_order() {
    let request = SourceIngestRequest::new("/in/notes.md".to_string(), "/raw".to_string(), "/tmp/iso".to_string())
        .with_actor("user-1".to_string())
        .with_workspace("workspace-1".to_string());
    let metadata = SourceMetadata {
        workspace_id: "workspace-2".to_string(),
        actor_id: "user-1".to_string(),
        origin_display: "notes.md".to_string(),
        permission_scope: String::new(),
        declared_mime: None,
    };
    let refused = prepare_sandboxed_ingest(&request, &metadata, Ok("/raw".to_string()), Ok("/raw".to_string()));
    assert!(matches!(
        refused,
        Err(WikiError::SourceMetadataMismatch { ref field, ref expected, ref actual })
            if field == "workspace_id" && expected == "workspace-1" && actual == "workspace-2"
    ));

    let metadata = SourceMetadata { workspace_id: "workspace-1".to_string(), ..metadata };
    let mismatch = prepare_sandboxed_ingest(&request, &metadata, Ok("/raw".to_string()), Ok("/other".to_string()));
    assert!(matches!(mismatch, Err(WikiError::RawCasRootMismatch { .. })));
    let scope = prepare_sandboxed_ingest(&request, &metadata, Ok("/raw".to_string()), Ok("/raw".to_string())).unwrap();
    assert_eq!(scope, "capability:file.read:source.ingest");

    assert!(ensure_metadata_field_matches("actor_id", "a", "a").is_ok());
    assert!(matches!(
        ensure_raw_cas_root_matches_request(Err("missing".to_string()), Ok("/raw".to_string())),
        Err(WikiError::Io(ref m)) if m == "missing"
    ));
}

#[test]
fn finished_sandboxed_ingest_keeps_the_audit() {
    let cas = cas("/var/raw", b"workspace-secret");
    let bytes = b"# Sandboxed\n".to_vec();
    let location = cas.locate(&bytes);
    let blob: RawBlob = RawCas::written_blob(&location, bytes.len() as u64, location.path.clone());
    let metadata = SourceMetadata {
        workspace_id: "workspace-1".to_string(),
        actor_id: "user-1".to_string(),
        origin_display: "/in/notes.md".to_string(),
        permission_scope: "ignored".to_string(),
        declared_mime: Some("text/markdown".to_string()),
    };
    let result = finish_sandboxed_ingest(
        blob,
        bytes,
        metadata,
        "capability:file.read:source.ingest".to_string(),
        Vec::new(),
        ParserConfig { max_pdf_bytes: 1024 },
    );
    assert_eq!(result.manifest.parse_status, ImportStage::Parsed);
    assert_eq!(result.manifest.permission_scope, "capability:file.read:source.ingest");
    assert_eq!(result.manifest.origin_display, "notes.md");
    assert!(result.sandbox_audit.is_empty());
}
