//! Source manifests and parsed frames.

use vstd::prelude::*;

use crate::policy::types::Timestamp;

verus! {

pub const RAW_SOURCE_STORAGE: &'static str = "append-only-content-addressed";

pub const SOURCE_MANIFEST_SCHEMA_HASH: &'static str = "source-manifest.v1";

pub const PARSED_FRAME_SCHEMA_HASH: &'static str = "parsed-frame.v1";

pub const MARKDOWN_PARSER_VERSION: &'static str = "seaki-markdown-parser.v1";

pub const PDF_PARSER_VERSION: &'static str = "seaki-pdf-parser.degraded.v1";

pub const DEFAULT_MAX_PDF_BYTES: usize = 16777216;

/// The stages a source goes through on import.
#[derive(Debug, Clone, Copy, PartialEq, Eq, Structural)]
pub enum ImportStage {
    RawCommitted,
    ParseRunning,
    Parsed,
    Partial,
    Failed,
    Indexed,
}

pub open spec fn stage_name(s: ImportStage) -> Seq<char> {
    match s {
        ImportStage::RawCommitted => "raw_committed"@,
        ImportStage::ParseRunning => "parse_running"@,
        ImportStage::Parsed => "parsed"@,
        ImportStage::Partial => "partial"@,
        ImportStage::Failed => "failed"@,
        ImportStage::Indexed => "indexed"@,
    }
}

/// A source's import ends once it is indexed or has failed.
pub open spec fn stage_is_terminal(s: ImportStage) -> bool {
    s == ImportStage::Indexed || s == ImportStage::Failed
}

impl ImportStage {
    pub fn as_str(self) -> (r: &'static str)
        ensures
            r@ == stage_name(self),
    {
        match self {
            ImportStage::RawCommitted => "raw_committed",
            ImportStage::ParseRunning => "parse_running",
            ImportStage::Parsed => "parsed",
            ImportStage::Partial => "partial",
            ImportStage::Failed => "failed",
            ImportStage::Indexed => "indexed",
        }
    }

    /// Whether no further stage follows this one.
    pub fn is_terminal(self) -> (r: bool)
        ensures
            r == stage_is_terminal(self),
    {
        match self {
            ImportStage::Indexed | ImportStage::Failed => true,
            _ => false,
        }
    }
}

pub type SourceIngestState = ImportStage;

#[derive(Debug, Clone, Copy, PartialEq, Eq, Structural)]
pub enum SourceVisibility {
    Visible,
    Restricted,
    Tombstoned,
}

#[derive(Debug, Clone, PartialEq, Eq)]
pub struct SourceManifest {
    pub source_id: String,
    pub workspace_id: String,
    pub actor_id: String,
    pub origin_display: String,
    pub origin_path_redacted: bool,
    pub mime: String,
    pub size: u64,
    pub raw_key: String,
    pub raw_content_hash: String,
    pub permission_scope: String,
    pub parse_status: ImportStage,
    pub state_history: Vec<ImportStage>,
    pub schema_hash: String,
    pub imported_at: Timestamp,
    pub tombstoned_at: Option<Timestamp>,
    pub visibility: SourceVisibility,
    pub error_summary: Option<String>,
}

#[derive(Debug, Clone, Copy, PartialEq, Eq, Structural)]
pub struct PageRange {
    pub start: u32,
    pub end: u32,
}

#[derive(Debug, Clone, Copy, PartialEq, Eq, Structural)]
pub struct LineRange {
    pub start: u32,
    pub end: u32,
}

#[derive(Debug, Clone, Copy, PartialEq, Eq, Structural)]
pub struct ByteRange {
    pub start: usize,
    pub end: usize,
}

#[derive(Debug, Clone, PartialEq, Eq)]
pub struct MimeSniff {
    pub declared: Option<String>,
    pub sniffed: String,
}

#[derive(Debug, Clone, Copy, PartialEq, Eq, Structural)]
pub enum TrustLevel {
    Untrusted,
}

#[derive(Debug, Clone, Copy, PartialEq, Eq, Structural)]
pub enum Taint {
    UntrustedContent,
}

#[derive(Debug, Clone, Copy, PartialEq, Eq, Structural)]
pub enum SecurityFlag {
    UntrustedContent,
    ExternalReference,
    PdfExtractionUnavailable,
    PdfOversized,
    PdfUnsupported,
    PdfActiveContent,
    PdfEmbeddedFile,
    PdfNeedsOcr,
    PdfRangeDegraded,
}

#[derive(Debug, Clone, PartialEq, Eq)]
pub struct ParsedFrame {
    pub frame_id: String,
    pub source_id: String,
    pub source_hash: String,
    pub parser_version: String,
    pub page_range: Option<PageRange>,
    pub line_range: LineRange,
    pub byte_range: ByteRange,
    pub mime_sniff: MimeSniff,
    pub text: String,
    pub text_hash: String,
    pub trust_level: TrustLevel,
    pub taint: Taint,
    pub schema_hash: String,
    pub security_flags: Vec<SecurityFlag>,
}

#[derive(Debug, Clone, PartialEq, Eq)]
pub struct ParsedArtifact {
    pub source_id: String,
    pub source_hash: String,
    pub parser_version: String,
    pub status: ImportStage,
    pub frames: Vec<ParsedFrame>,
    pub security_flags: Vec<SecurityFlag>,
    pub generated_at: Timestamp,
    pub error_summary: Option<String>,
}

#[derive(Debug, Clone, PartialEq, Eq)]
pub struct SourceMetadata {
    pub workspace_id: String,
    pub actor_id: String,
    pub origin_display: String,
    pub permission_scope: String,
    pub declared_mime: Option<String>,
}

#[derive(Debug, Clone, PartialEq, Eq)]
pub struct SourceInput {
    pub workspace_id: String,
    pub actor_id: String,
    pub origin_display: String,
    pub permission_scope: String,
    pub declared_mime: Option<String>,
    pub bytes: Vec<u8>,
}

#[derive(Debug, Clone, Copy, PartialEq, Eq, Structural)]
pub struct ParserConfig {
    pub max_pdf_bytes: usize,
}

impl Default for ParserConfig {
    fn default() -> (r: Self)
        ensures
            r.max_pdf_bytes == DEFAULT_MAX_PDF_BYTES,
    {
        ParserConfig { max_pdf_bytes: DEFAULT_MAX_PDF_BYTES }
    }
}

} // verus!
