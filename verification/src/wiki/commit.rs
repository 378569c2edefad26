//! Committing a source: the manifest of a raw blob, the artifact parsed from
//! it, and the checks that tie a sandboxed ingest to its metadata.

use vstd::prelude::*;
use vstd::utf8::{decode_utf8, valid_utf8};

use crate::policy::grant::current_time;
use crate::policy::types::Timestamp;
use crate::sandbox::ingest::{SandboxAuditRecord, SourceIngestRequest};
use crate::text::{concat2, concat3, contains_str, decimal, has_substring, owned, str_eq, string_from_chars, chars_of, u64_to_decimal};
use crate::wiki::ingest::{
    is_markdown_mime, is_pdf_mime, markdown_artifact, markdown_mime, parse_markdown, parse_pdf_stub, pdf_artifact,
    sniff_mime, sniffed_mime,
};
use crate::wiki::markdown::line_count_from;
use crate::wiki::raw::{ascii_prefix, source_id_for, RawBlob, WikiError, WikiResult};
use crate::wiki::source::{
    stage_name, ImportStage, ParsedArtifact, ParserConfig, SecurityFlag, SourceInput, SourceManifest,
    SourceMetadata, SourceVisibility, MARKDOWN_PARSER_VERSION, SOURCE_MANIFEST_SCHEMA_HASH,
};

verus! {

// ---------------------------------------------------------------------------
// Redacting the origin
// ---------------------------------------------------------------------------

/// A separator: `/`, and `\` too when `any`.
pub open spec fn is_sep(c: char, any: bool) -> bool {
    c == '/' || (any && c == '\\')
}

/// Where the segment of `s` that ends at `end` starts: just past the
/// separator before it, or at the start.
pub open spec fn seg_start(s: Seq<char>, end: int, any: bool) -> int
    decreases end,
{
    if end <= 0 {
        0
    } else if is_sep(s[end - 1], any) {
        end
    } else {
        seg_start(s, end - 1, any)
    }
}

pub proof fn lemma_seg_start_bounds(s: Seq<char>, end: int, any: bool)
    requires
        0 <= end,
    ensures
        0 <= seg_start(s, end, any) <= end,
    decreases end,
{
    if end > 0 && !is_sep(s[end - 1], any) {
        lemma_seg_start_bounds(s, end - 1, any);
    }
}

/// A normal path component: not empty, `.` or `..`.
pub open spec fn normal_component(seg: Seq<char>) -> bool {
    seg.len() > 0 && seg != seq!['.'] && seg != seq!['.', '.']
}

/// The last normal component of `s[..end]` read as a Unix path.
pub open spec fn last_normal(s: Seq<char>, end: int) -> Option<Seq<char>>
    decreases end,
{
    if end <= 0 {
        None
    } else {
        proof {
            lemma_seg_start_bounds(s, end, false);
        }
        let st = seg_start(s, end, false);
        let seg = s.subrange(st, end);
        if normal_component(seg) {
            Some(seg)
        } else if st <= 0 {
            None
        } else {
            last_normal(s, st - 1)
        }
    }
}

/// The file name of an origin: what follows its last `/` or `\`, if anything
/// does; else its last normal path component.
pub open spec fn origin_file_name(s: Seq<char>) -> Option<Seq<char>> {
    let tail = s.subrange(seg_start(s, s.len() as int, true), s.len() as int);
    if tail.len() > 0 {
        Some(tail)
    } else {
        last_normal(s, s.len() as int)
    }
}

/// An origin that names a path, with separators.
pub open spec fn has_separator(s: Seq<char>) -> bool {
    has_substring(s, "/"@) || has_substring(s, "\\"@)
}

/// The origin shown in a manifest: a path is cut to its file name (and
/// marked redacted); anything else is shown as it is.
pub open spec fn redacted_origin(s: Seq<char>) -> (Seq<char>, bool) {
    match origin_file_name(s) {
        Some(name) => if has_separator(s) {
            (name, true)
        } else {
            (s, false)
        },
        None => (s, false),
    }
}

fn segment_start(cs: &Vec<char>, end: usize, any: bool) -> (r: usize)
    requires
        end <= cs@.len(),
    ensures
        r == seg_start(cs@, end as int, any),
        r <= end,
{
    let mut k = end;
    while k > 0 && !(cs[k - 1] == '/' || (any && cs[k - 1] == '\\'))
        invariant
            k <= end <= cs@.len(),
            seg_start(cs@, k as int, any) == seg_start(cs@, end as int, any),
        decreases k,
    {
        k = k - 1;
    }
    k
}

fn is_normal_between(cs: &Vec<char>, a: usize, b: usize) -> (r: bool)
    requires
        a <= b <= cs@.len(),
    ensures
        r == normal_component(cs@.subrange(a as int, b as int)),
{
    let ghost seg = cs@.subrange(a as int, b as int);
    if b == a {
        return false;
    }
    if b - a == 1 && cs[a] == '.' {
        assert(seg =~= seq!['.']);
        return false;
    }
    if b - a == 2 && cs[a] == '.' && cs[a + 1] == '.' {
        assert(seg =~= seq!['.', '.']);
        return false;
    }
    assert(seg != seq!['.']) by {
        if b - a == 1 {
            assert(seg[0] == cs@[a as int]);
            assert(seg[0] != seq!['.'][0]);
        } else {
            assert(seg.len() != seq!['.'].len());
        }
    }
    assert(seg != seq!['.', '.']) by {
        if b - a == 2 {
            assert(seg[0] == cs@[a as int]);
            assert(seg[1] == cs@[a + 1]);
            if cs@[a as int] != '.' {
                assert(seg[0] != seq!['.', '.'][0]);
            } else {
                assert(seg[1] != seq!['.', '.'][1]);
            }
        } else {
            assert(seg.len() != seq!['.', '.'].len());
        }
    }
    true
}

fn last_normal_component(cs: &Vec<char>, end: usize) -> (r: Option<(usize, usize)>)
    requires
        end <= cs@.len(),
    ensures
        match r {
            Some(p) => p.0 <= p.1 <= cs@.len() && last_normal(cs@, end as int) == Some(cs@.subrange(p.0 as int, p.1 as int)),
            None => last_normal(cs@, end as int) is None,
        },
{
    let mut e = end;
    loop
        invariant
            e <= end <= cs@.len(),
            last_normal(cs@, e as int) == last_normal(cs@, end as int),
        decreases e,
    {
        if e == 0 {
            return None;
        }
        let st = segment_start(cs, e, false);
        if is_normal_between(cs, st, e) {
            return Some((st, e));
        }
        if st == 0 {
            return None;
        }
        e = st - 1;
    }
}

fn chars_between(cs: &Vec<char>, a: usize, b: usize) -> (r: String)
    requires
        a <= b <= cs@.len(),
    ensures
        r@ == cs@.subrange(a as int, b as int),
{
    let mut out: Vec<char> = Vec::new();
    let mut k = a;
    while k < b
        invariant
            a <= k <= b <= cs@.len(),
            out@ == cs@.subrange(a as int, k as int),
        decreases b - k,
    {
        out.push(cs[k]);
        assert(out@ =~= cs@.subrange(a as int, k + 1));
        k = k + 1;
    }
    string_from_chars(out.as_slice())
}

/// The origin to show in a manifest, and whether it was cut (see
/// `redacted_origin`).
pub fn redact_origin_display(origin_display: &str) -> (r: (String, bool))
    ensures
        (r.0@, r.1) == redacted_origin(origin_display@),
{
    let has_sep = contains_str(origin_display, "/") || contains_str(origin_display, "\\");
    let cs = chars_of(origin_display);
    let n = cs.len();
    let st = segment_start(&cs, n, true);
    let name: Option<String> = if st < n {
        Some(chars_between(&cs, st, n))
    } else {
        match last_normal_component(&cs, n) {
            Some(p) => Some(chars_between(&cs, p.0, p.1)),
            None => None,
        }
    };
    proof {
        assert(cs@.subrange(0, n as int) =~= cs@);
    }
    match name {
        Some(nm) => if has_sep {
            (nm, true)
        } else {
            (owned(origin_display), false)
        },
        None => (owned(origin_display), false),
    }
}

// ---------------------------------------------------------------------------
// Parsing a committed source
// ---------------------------------------------------------------------------

/// Whether `a` is what parsing the bytes gives: markdown for a markdown type,
/// the degraded PDF parse for a PDF type (sniffed or declared), and a failure
/// naming the type otherwise.
pub open spec fn raw_artifact(
    source_id: Seq<char>,
    source_hash: Seq<char>,
    declared: Option<String>,
    sniffed: Seq<char>,
    b: Seq<u8>,
    max: usize,
    a: ParsedArtifact,
) -> bool {
    if markdown_mime(sniffed) {
        markdown_artifact(source_id, source_hash, declared, sniffed, b, a)
    } else if sniffed == "application/pdf"@ || (declared matches Some(d) && d@ == "application/pdf"@) {
        pdf_artifact(source_id, source_hash, declared, sniffed, b, max, a)
    } else {
        &&& a.source_id@ == source_id
        &&& a.source_hash@ == source_hash
        &&& a.parser_version@ == MARKDOWN_PARSER_VERSION@
        &&& a.status == ImportStage::Failed
        &&& a.frames@.len() == 0
        &&& a.security_flags@ == seq![SecurityFlag::UntrustedContent]
        &&& a.error_summary matches Some(t) && t@ == "unsupported source mime: "@ + sniffed
    }
}

/// The text of a source is short enough in lines to number them.
pub open spec fn lines_fit(b: Seq<u8>) -> bool {
    valid_utf8(b) ==> line_count_from(decode_utf8(b), 0) < u32::MAX
}

/// Parses a committed source by its sniffed type (see `raw_artifact`).
pub fn parse_raw_source(
    source_id: &str,
    source_hash: &str,
    declared_mime: Option<String>,
    sniffed_mime: &str,
    bytes: &[u8],
    config: ParserConfig,
    generated_at: Timestamp,
) -> (r: ParsedArtifact)
    requires
        lines_fit(bytes@),
    ensures
        raw_artifact(source_id@, source_hash@, declared_mime, sniffed_mime@, bytes@, config.max_pdf_bytes, r),
        r.generated_at == generated_at,
        r.status == ImportStage::Parsed || r.status == ImportStage::Partial || r.status == ImportStage::Failed,
{
    if is_markdown_mime(sniffed_mime) {
        return parse_markdown(source_id, source_hash, declared_mime, sniffed_mime, bytes, generated_at);
    }
    let declared_pdf = match &declared_mime {
        Some(d) => str_eq(d.as_str(), "application/pdf"),
        None => false,
    };
    if is_pdf_mime(sniffed_mime) || declared_pdf {
        return parse_pdf_stub(source_id, source_hash, declared_mime, sniffed_mime, bytes, config, generated_at);
    }
    let mut flags: Vec<SecurityFlag> = Vec::new();
    flags.push(SecurityFlag::UntrustedContent);
    ParsedArtifact {
        source_id: owned(source_id),
        source_hash: owned(source_hash),
        parser_version: owned(MARKDOWN_PARSER_VERSION),
        status: ImportStage::Failed,
        frames: Vec::new(),
        security_flags: flags,
        generated_at,
        error_summary: Some(concat2("unsupported source mime: ", sniffed_mime)),
    }
}

/// A source's manifest, the artifact parsed from it, its raw blob, and the
/// audit of the sandbox it was read in.
#[derive(Debug, Clone, PartialEq, Eq)]
pub struct SourceIngestResult {
    pub manifest: SourceManifest,
    pub artifact: ParsedArtifact,
    pub raw_blob: RawBlob,
    pub sandbox_audit: Vec<SandboxAuditRecord>,
}

pub open spec fn declared_view(d: Option<String>) -> Option<Seq<char>> {
    match d {
        Some(m) => Some(m@),
        None => None,
    }
}

/// Whether `r` is the result of committing `input` as `raw_blob`, whatever
/// the clock read: the manifest records the source (its origin redacted, its
/// sniffed type, the blob's key, hash and size) and went from raw-committed
/// through parse-running to the artifact's status; the artifact is the parse
/// of the bytes.
pub open spec fn committed_result(raw_blob: RawBlob, input: SourceInput, config: ParserConfig, r: SourceIngestResult) -> bool {
    let sniffed = sniffed_mime(declared_view(input.declared_mime), input.bytes@);
    let source_id = "src_"@ + raw_blob.raw_key@.subrange(0, 32);
    let m = r.manifest;
    &&& m.source_id@ == source_id
    &&& m.workspace_id == input.workspace_id
    &&& m.actor_id == input.actor_id
    &&& (m.origin_display@, m.origin_path_redacted) == redacted_origin(input.origin_display@)
    &&& m.mime@ == sniffed
    &&& m.size == raw_blob.len
    &&& m.raw_key == raw_blob.raw_key
    &&& m.raw_content_hash == raw_blob.content_hash
    &&& m.permission_scope == input.permission_scope
    &&& m.parse_status == r.artifact.status
    &&& m.state_history@ == seq![ImportStage::RawCommitted, ImportStage::ParseRunning, r.artifact.status]
    &&& m.schema_hash@ == SOURCE_MANIFEST_SCHEMA_HASH@
    &&& m.tombstoned_at is None
    &&& m.visibility == SourceVisibility::Visible
    &&& m.error_summary == r.artifact.error_summary
    &&& raw_artifact(source_id, raw_blob.content_hash@, input.declared_mime, sniffed, input.bytes@, config.max_pdf_bytes, r.artifact)
    &&& r.raw_blob == raw_blob
}

/// Commits a source stored as `raw_blob`, at the given import and parse
/// times (see `committed_result`). The parse always ends parsed, partial or
/// failed, and that stage closes the manifest's history.
pub fn ingest_committed_source_at(
    raw_blob: RawBlob,
    input: SourceInput,
    config: ParserConfig,
    imported_at: Timestamp,
    generated_at: Timestamp,
) -> (r: SourceIngestResult)
    requires
        ascii_prefix(raw_blob.raw_key@, 32),
        lines_fit(input.bytes@),
    ensures
        committed_result(raw_blob, input, config, r),
        r.sandbox_audit@.len() == 0,
        r.manifest.imported_at == imported_at,
        r.artifact.generated_at == generated_at,
        r.manifest.parse_status == ImportStage::Parsed || r.manifest.parse_status == ImportStage::Partial
            || r.manifest.parse_status == ImportStage::Failed,
        r.manifest.state_history@.last() == r.manifest.parse_status,
{
    let declared = match &input.declared_mime {
        Some(d) => Some(d.as_str()),
        None => None,
    };
    let sniffed = sniff_mime(declared, input.bytes.as_slice());
    let source_id = source_id_for(raw_blob.raw_key.as_str());
    let (origin_display, origin_path_redacted) = redact_origin_display(input.origin_display.as_str());
    let artifact = parse_raw_source(
        source_id.as_str(),
        raw_blob.content_hash.as_str(),
        input.declared_mime.clone(),
        sniffed.as_str(),
        input.bytes.as_slice(),
        config,
        generated_at,
    );
    let mut history: Vec<ImportStage> = Vec::new();
    history.push(ImportStage::RawCommitted);
    history.push(ImportStage::ParseRunning);
    history.push(artifact.status);
    let manifest = SourceManifest {
        source_id,
        workspace_id: input.workspace_id,
        actor_id: input.actor_id,
        origin_display,
        origin_path_redacted,
        mime: sniffed,
        size: raw_blob.len,
        raw_key: raw_blob.raw_key.clone(),
        raw_content_hash: raw_blob.content_hash.clone(),
        permission_scope: input.permission_scope,
        parse_status: artifact.status,
        state_history: history,
        schema_hash: owned(SOURCE_MANIFEST_SCHEMA_HASH),
        imported_at,
        tombstoned_at: None,
        visibility: SourceVisibility::Visible,
        error_summary: artifact.error_summary.clone(),
    };
    assert(manifest.state_history@ =~= seq![ImportStage::RawCommitted, ImportStage::ParseRunning, artifact.status]);
    SourceIngestResult { manifest, artifact, raw_blob, sandbox_audit: Vec::new() }
}

/// Commits a source stored as `raw_blob`, stamped with the clock (see
/// `committed_result`).
pub fn ingest_committed_source(raw_blob: RawBlob, input: SourceInput, config: ParserConfig) -> (r: SourceIngestResult)
    requires
        ascii_prefix(raw_blob.raw_key@, 32),
        lines_fit(input.bytes@),
    ensures
        committed_result(raw_blob, input, config, r),
        r.sandbox_audit@.len() == 0,
{
    let imported_at = current_time();
    let generated_at = current_time();
    ingest_committed_source_at(raw_blob, input, config, imported_at, generated_at)
}

impl SourceManifest {
    /// One line that names the source for an audit log.
    pub fn audit_summary(&self) -> (r: String)
        ensures
            r@ == "source_id="@ + self.source_id@ + " origin_display="@ + self.origin_display@ + " mime="@ + self.mime@
                + " size="@ + decimal(self.size as nat) + " parse_status="@ + stage_name(self.parse_status),
    {
        let a = concat3("source_id=", self.source_id.as_str(), " origin_display=");
        let b = concat3(a.as_str(), self.origin_display.as_str(), " mime=");
        let c = concat3(b.as_str(), self.mime.as_str(), " size=");
        let d = concat3(c.as_str(), u64_to_decimal(self.size).as_str(), " parse_status=");
        concat2(d.as_str(), self.parse_status.as_str())
    }
}

// ---------------------------------------------------------------------------
// A sandboxed ingest
// ---------------------------------------------------------------------------

/// The field of a sandbox request must equal the metadata's.
pub fn ensure_metadata_field_matches(field: &str, expected: &str, actual: &str) -> (r: WikiResult<()>)
    ensures
        expected@ == actual@ <==> r is Ok,
        r matches Err(e) ==> (e matches WikiError::SourceMetadataMismatch { field: f, expected: x, actual: a } && f@
            == field@ && x@ == expected@ && a@ == actual@),
{
    if str_eq(expected, actual) {
        Ok(())
    } else {
        Err(WikiError::SourceMetadataMismatch { field: owned(field), expected: owned(expected), actual: owned(actual) })
    }
}

/// A sandbox request must be for the metadata's workspace, then its actor.
pub fn ensure_sandbox_request_matches_metadata(request: &SourceIngestRequest, metadata: &SourceMetadata) -> (r: WikiResult<()>)
    ensures
        r is Ok <==> (request.workspace_id@ == metadata.workspace_id@ && request.actor_id@ == metadata.actor_id@),
        request.workspace_id@ != metadata.workspace_id@ ==> (r matches Err(WikiError::SourceMetadataMismatch {
            field: f,
            expected: x,
            actual: a,
        }) && f@ == "workspace_id"@ && x@ == request.workspace_id@ && a@ == metadata.workspace_id@),
        request.workspace_id@ == metadata.workspace_id@ && request.actor_id@ != metadata.actor_id@ ==> (r matches Err(
            WikiError::SourceMetadataMismatch { field: f, expected: x, actual: a },
        ) && f@ == "actor_id"@ && x@ == request.actor_id@ && a@ == metadata.actor_id@),
{
    ensure_metadata_field_matches("workspace_id", request.workspace_id.as_str(), metadata.workspace_id.as_str())?;
    ensure_metadata_field_matches("actor_id", request.actor_id.as_str(), metadata.actor_id.as_str())
}

/// The store's root and the request's raw directory, both canonicalised
/// (or the error of doing so), must be the same directory.
pub fn ensure_raw_cas_root_matches_request(
    actual_raw_cas_dir: Result<String, String>,
    expected_raw_cas_dir: Result<String, String>,
) -> (r: WikiResult<()>)
    ensures
        match (actual_raw_cas_dir, expected_raw_cas_dir) {
            (Err(e), _) => r == Err::<(), WikiError>(WikiError::Io(e)),
            (Ok(_), Err(e)) => r == Err::<(), WikiError>(WikiError::Io(e)),
            (Ok(a), Ok(x)) => if a@ == x@ {
                r is Ok
            } else {
                r == Err::<(), WikiError>(WikiError::RawCasRootMismatch { expected_raw_cas_dir: x, actual_raw_cas_dir: a })
            },
        },
{
    match actual_raw_cas_dir {
        Err(e) => Err(WikiError::Io(e)),
        Ok(a) => match expected_raw_cas_dir {
            Err(e) => Err(WikiError::Io(e)),
            Ok(x) => if str_eq(a.as_str(), x.as_str()) {
                Ok(())
            } else {
                Err(WikiError::RawCasRootMismatch { expected_raw_cas_dir: x, actual_raw_cas_dir: a })
            },
        },
    }
}

/// The permission scope under which a sandboxed ingest reads its source.
pub fn source_ingest_permission_scope(request: &SourceIngestRequest) -> (r: String)
    ensures
        r@ == "capability:file.read:source.ingest"@,
{
    owned("capability:file.read:source.ingest")
}

/// Both roots were canonicalised, to the same directory.
pub open spec fn roots_match(actual: Result<String, String>, expected: Result<String, String>) -> bool {
    match (actual, expected) {
        (Ok(a), Ok(x)) => a@ == x@,
        _ => false,
    }
}

/// The checks before a sandboxed ingest, in order: the request matches the
/// metadata, and the store's root is the request's raw directory. On success,
/// the permission scope the source is read under.
pub fn prepare_sandboxed_ingest(
    request: &SourceIngestRequest,
    metadata: &SourceMetadata,
    actual_raw_cas_dir: Result<String, String>,
    expected_raw_cas_dir: Result<String, String>,
) -> (r: WikiResult<String>)
    ensures
        r matches Ok(s) ==> s@ == "capability:file.read:source.ingest"@,
        r is Ok <==> (request.workspace_id@ == metadata.workspace_id@ && request.actor_id@ == metadata.actor_id@
            && roots_match(actual_raw_cas_dir, expected_raw_cas_dir)),
        (request.workspace_id@ != metadata.workspace_id@ || request.actor_id@ != metadata.actor_id@) ==> (r matches Err(
            WikiError::SourceMetadataMismatch { .. },
        )),
{
    ensure_sandbox_request_matches_metadata(request, metadata)?;
    ensure_raw_cas_root_matches_request(actual_raw_cas_dir, expected_raw_cas_dir)?;
    Ok(source_ingest_permission_scope(request))
}

/// What a sandboxed ingest gives once the sandbox has read the source's bytes
/// and stored them as `raw_blob`: the source committed under the metadata and
/// the permission scope, with the sandbox's audit.
pub fn finish_sandboxed_ingest(
    raw_blob: RawBlob,
    bytes: Vec<u8>,
    metadata: SourceMetadata,
    permission_scope: String,
    audit: Vec<SandboxAuditRecord>,
    config: ParserConfig,
) -> (r: SourceIngestResult)
    requires
        ascii_prefix(raw_blob.raw_key@, 32),
        lines_fit(bytes@),
    ensures
        committed_result(
            raw_blob,
            (SourceInput {
                workspace_id: metadata.workspace_id,
                actor_id: metadata.actor_id,
                origin_display: metadata.origin_display,
                permission_scope,
                declared_mime: metadata.declared_mime,
                bytes,
            }),
            config,
            r,
        ),
        r.sandbox_audit == audit,
{
    let source = SourceInput {
        workspace_id: metadata.workspace_id,
        actor_id: metadata.actor_id,
        origin_display: metadata.origin_display,
        permission_scope,
        declared_mime: metadata.declared_mime,
        bytes,
    };
    let mut result = ingest_committed_source(raw_blob, source, config);
    result.sandbox_audit = audit;
    result
}

} // verus!
