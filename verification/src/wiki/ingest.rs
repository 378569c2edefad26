//! Ingesting a committed source: sniffing its type, parsing it into frames,
//! and recording its manifest.

use vstd::prelude::*;

use crate::hash::{hash_text_spec, digest_hex};
use crate::text::{concat2, concat3, decimal, has_substring, contains_str, joined, join_with, owned, str_eq, u64_to_decimal, views};
use crate::wiki::pdf::{pdf_text_spans, span_view, spans_from, PdfTextSpan};
use crate::wiki::raw::{frame_id_for, frame_id_spec, sha256_hex};
use crate::wiki::source::{
    ByteRange, ImportStage, LineRange, MimeSniff, ParsedArtifact, ParsedFrame, ParserConfig, SecurityFlag, Taint,
    TrustLevel, PARSED_FRAME_SCHEMA_HASH, PDF_PARSER_VERSION,
};
use crate::policy::types::Timestamp;
use crate::text::{chars_of, push_char};
use crate::wiki::markdown::{byte_len, bytes_match, line_count_from, markdown_paragraphs, paragraphs, range_view, MarkdownRange};
use crate::wiki::source::MARKDOWN_PARSER_VERSION;
use vstd::utf8::{decode_utf8, valid_utf8};

verus! {

/// `std::str::from_utf8`, owned: it succeeds exactly on valid UTF-8, and then
/// gives the text whose UTF-8 encoding the bytes are.
#[verifier::external_body]
pub(crate) fn utf8_text(bytes: &[u8]) -> (r: Option<String>)
    ensures
        r is Some == valid_utf8(bytes@),
        r matches Some(s) ==> vstd::utf8::encode_utf8(s@) == bytes@,
{
    match std::str::from_utf8(bytes) {
        Ok(s) => Some(s.to_string()),
        Err(_) => None,
    }
}

/// The bytes begin with the PDF magic `%PDF-`.
pub open spec fn pdf_magic(b: Seq<u8>) -> bool {
    b.len() >= 5 && b.subrange(0, 5) == seq![37u8, 80u8, 68u8, 70u8, 45u8]
}

/// The MIME types read as markdown.
pub open spec fn markdown_mime(m: Seq<char>) -> bool {
    m == "text/markdown"@ || m == "text/x-markdown"@ || m == "text/plain"@
}

/// The MIME type of a source: PDF by its magic; else a declared markdown,
/// plain-text or PDF type; else markdown for UTF-8 text; else octet stream.
pub open spec fn sniffed_mime(declared: Option<Seq<char>>, b: Seq<u8>) -> Seq<char> {
    if pdf_magic(b) {
        "application/pdf"@
    } else {
        match declared {
            Some(m) => if markdown_mime(m) || m == "application/pdf"@ {
                m
            } else if valid_utf8(b) {
                "text/markdown"@
            } else {
                "application/octet-stream"@
            },
            None => if valid_utf8(b) {
                "text/markdown"@
            } else {
                "application/octet-stream"@
            },
        }
    }
}

fn has_pdf_magic(bytes: &[u8]) -> (r: bool)
    ensures
        r == pdf_magic(bytes@),
{
    let magic: [u8; 5] = [37, 80, 68, 70, 45];
    if bytes.len() < 5 {
        return false;
    }
    let mut i: usize = 0;
    while i < 5
        invariant
            i <= 5,
            bytes@.len() >= 5,
            magic@ == seq![37u8, 80u8, 68u8, 70u8, 45u8],
            forall|j: int| 0 <= j < i ==> bytes@[j] == magic@[j],
        decreases 5 - i,
    {
        if bytes[i] != magic[i] {
            assert(bytes@.subrange(0, 5)[i as int] != magic@[i as int]);
            return false;
        }
        i = i + 1;
    }
    assert(bytes@.subrange(0, 5) =~= seq![37u8, 80u8, 68u8, 70u8, 45u8]);
    true
}

/// Whether a MIME type is read as markdown.
pub fn is_markdown_mime(mime: &str) -> (r: bool)
    ensures
        r == markdown_mime(mime@),
{
    str_eq(mime, "text/markdown") || str_eq(mime, "text/x-markdown") || str_eq(mime, "text/plain")
}

/// Whether a MIME type is PDF.
pub fn is_pdf_mime(mime: &str) -> (r: bool)
    ensures
        r == (mime@ == "application/pdf"@),
{
    str_eq(mime, "application/pdf")
}

/// The MIME type of a source (see `sniffed_mime`).
pub fn sniff_mime(declared_mime: Option<&str>, bytes: &[u8]) -> (r: String)
    ensures
        r@ == sniffed_mime(
            match declared_mime {
                Some(m) => Some(m@),
                None => None,
            },
            bytes@,
        ),
{
    if has_pdf_magic(bytes) {
        return owned("application/pdf");
    }
    if let Some(mime) = declared_mime {
        if is_markdown_mime(mime) || is_pdf_mime(mime) {
            return owned(mime);
        }
    }
    if utf8_text(bytes).is_some() {
        return owned("text/markdown");
    }
    owned("application/octet-stream")
}

/// A text links outside: it holds `http://` or `https://`.
pub open spec fn external_reference(t: Seq<char>) -> bool {
    has_substring(t, "http://"@) || has_substring(t, "https://"@)
}

/// Whether a text links outside.
pub fn contains_external_reference(text: &str) -> (r: bool)
    ensures
        r == external_reference(text@),
{
    contains_str(text, "http://") || contains_str(text, "https://")
}

// ---------------------------------------------------------------------------
// Byte search
// ---------------------------------------------------------------------------

/// A byte lower-cased if it is an ASCII capital.
pub open spec fn lower_byte(b: u8) -> u8 {
    if 65 <= b <= 90 { (b + 32) as u8 } else { b }
}

/// The bytes with ASCII capitals lower-cased.
pub open spec fn lower_bytes(b: Seq<u8>) -> Seq<u8> {
    b.map_values(|x: u8| lower_byte(x))
}

/// The needle occurs in the haystack and is not empty.
pub open spec fn has_bytes(h: Seq<u8>, n: Seq<u8>) -> bool {
    n.len() > 0 && exists|i: int| 0 <= i && i + n.len() <= h.len() && #[trigger] h.subrange(i, i + n.len()) == n
}

/// Whether a non-empty needle occurs in the haystack.
pub fn contains_bytes(haystack: &[u8], needle: &[u8]) -> (r: bool)
    ensures
        r == has_bytes(haystack@, needle@),
{
    let hl = haystack.len();
    let nl = needle.len();
    if nl == 0 || nl > hl {
        return false;
    }
    let mut i: usize = 0;
    while i <= hl - nl
        invariant
            hl == haystack@.len(),
            nl == needle@.len(),
            0 < nl <= hl,
            i <= hl - nl + 1,
            forall|j: int| 0 <= j < i ==> #[trigger] haystack@.subrange(j, j + nl) != needle@,
        decreases hl - i,
    {
        let mut k: usize = 0;
        let mut same = true;
        while k < nl
            invariant
                hl == haystack@.len(),
                nl == needle@.len(),
                i + nl <= hl,
                k <= nl,
                same == forall|q: int| 0 <= q < k ==> haystack@[i + q] == needle@[q],
            decreases nl - k,
        {
            if haystack[i + k] != needle[k] {
                same = false;
            }
            k = k + 1;
        }
        if same {
            assert(haystack@.subrange(i as int, i + nl) =~= needle@);
            return true;
        }
        proof {
            let q = choose|q: int| 0 <= q < nl && haystack@[i + q] != needle@[q];
            assert(haystack@.subrange(i as int, i + nl)[q] != needle@[q]);
        }
        i = i + 1;
    }
    assert forall|j: int| 0 <= j && j + nl <= hl implies #[trigger] haystack@.subrange(j, j + nl) != needle@ by {}
    false
}

fn lowercase_bytes(bytes: &[u8]) -> (r: Vec<u8>)
    ensures
        r@ == lower_bytes(bytes@),
{
    let mut out: Vec<u8> = Vec::new();
    let mut i: usize = 0;
    while i < bytes.len()
        invariant
            i <= bytes@.len(),
            out@ == lower_bytes(bytes@).take(i as int),
        decreases bytes@.len() - i,
    {
        let b = bytes[i];
        let l = if 65 <= b && b <= 90 { b + 32 } else { b };
        out.push(l);
        assert(out@ =~= lower_bytes(bytes@).take(i + 1));
        i = i + 1;
    }
    assert(lower_bytes(bytes@).take(i as int) =~= lower_bytes(bytes@));
    out
}

/// Some needle occurs in the bytes, ASCII case aside.
pub open spec fn has_any_folded(b: Seq<u8>, needles: Seq<Seq<u8>>) -> bool {
    exists|k: int| 0 <= k < needles.len() && has_bytes(lower_bytes(b), #[trigger] needles[k])
}

/// Whether some (lower-case) needle occurs in the bytes, ASCII case aside.
pub fn pdf_contains_any_case_insensitive(bytes: &[u8], lower_needles: &Vec<Vec<u8>>) -> (r: bool)
    ensures
        r == has_any_folded(bytes@, lower_needles@.map_values(|n: Vec<u8>| n@)),
{
    let lower = lowercase_bytes(bytes);
    let ghost ns = lower_needles@.map_values(|n: Vec<u8>| n@);
    let mut k: usize = 0;
    while k < lower_needles.len()
        invariant
            k <= lower_needles@.len(),
            ns == lower_needles@.map_values(|n: Vec<u8>| n@),
            lower@ == lower_bytes(bytes@),
            forall|j: int| 0 <= j < k ==> !has_bytes(lower_bytes(bytes@), #[trigger] ns[j]),
        decreases lower_needles@.len() - k,
    {
        assert(ns[k as int] == lower_needles@[k as int]@);
        if contains_bytes(lower.as_slice(), lower_needles[k].as_slice()) {
            return true;
        }
        k = k + 1;
    }
    false
}

fn literal_bytes(s: &str) -> (r: Vec<u8>)
    ensures
        r@ == vstd::utf8::encode_utf8(s@),
{
    let b = s.as_bytes();
    let mut out: Vec<u8> = Vec::new();
    let mut i: usize = 0;
    while i < b.len()
        invariant
            i <= b@.len(),
            out@ == b@.take(i as int),
        decreases b@.len() - i,
    {
        out.push(b[i]);
        assert(out@ =~= b@.take(i + 1));
        i = i + 1;
    }
    assert(b@.take(i as int) =~= b@);
    out
}

/// The markers of active content.
pub open spec fn active_needles() -> Seq<Seq<u8>> {
    seq!["/javascript"@, "/js"@, "/launch"@, "/openaction"@].map_values(|t: Seq<char>| vstd::utf8::encode_utf8(t))
}

/// The markers of embedded files.
pub open spec fn embedded_needles() -> Seq<Seq<u8>> {
    seq!["/embeddedfile"@, "/filespec"@].map_values(|t: Seq<char>| vstd::utf8::encode_utf8(t))
}

// ---------------------------------------------------------------------------
// The degraded PDF parse
// ---------------------------------------------------------------------------

/// A flag and a reason, when the condition holds.
pub open spec fn when(c: bool, x: (SecurityFlag, Seq<char>)) -> Seq<(SecurityFlag, Seq<char>)> {
    if c { seq![x] } else { Seq::empty() }
}

/// The findings of a PDF before its text is read: too large, no magic,
/// active content, embedded files; each a flag with its reason.
pub open spec fn pdf_findings(b: Seq<u8>, max: usize) -> Seq<(SecurityFlag, Seq<char>)> {
    when(
        b.len() > max,
        (SecurityFlag::PdfOversized, "pdf exceeds configured extractor limit: "@ + decimal(b.len()) + " > "@ + decimal(max as nat)
            + " bytes"@),
    ) + when(!pdf_magic(b), (SecurityFlag::PdfUnsupported, "pdf magic header missing or unsupported"@)) + when(
        has_any_folded(b, active_needles()),
        (SecurityFlag::PdfActiveContent, "pdf active content was not executed"@),
    ) + when(has_any_folded(b, embedded_needles()), (SecurityFlag::PdfEmbeddedFile, "pdf embedded files were ignored"@))
}

/// The text spans read from a PDF: only from one with the magic and within the limit.
pub open spec fn pdf_spans(b: Seq<u8>, max: usize) -> Seq<(Seq<char>, ByteRange)> {
    if pdf_magic(b) && b.len() <= max {
        spans_from(b, 0, false)
    } else {
        Seq::empty()
    }
}

/// The findings once the text is read: the ranges are degraded when text
/// was found.
pub open spec fn pdf_findings_read(b: Seq<u8>, max: usize) -> Seq<(SecurityFlag, Seq<char>)> {
    pdf_findings(b, max) + when(
        pdf_spans(b, max).len() > 0,
        (SecurityFlag::PdfRangeDegraded, "pdf text ranges do not include reliable page or line coordinates"@),
    )
}

/// The flags of findings, after the untrusted-content flag.
pub open spec fn flags_of(fs: Seq<(SecurityFlag, Seq<char>)>) -> Seq<SecurityFlag> {
    seq![SecurityFlag::UntrustedContent] + fs.map_values(|f: (SecurityFlag, Seq<char>)| f.0)
}

/// The reasons of findings.
pub open spec fn reasons_of(fs: Seq<(SecurityFlag, Seq<char>)>) -> Seq<Seq<char>> {
    fs.map_values(|f: (SecurityFlag, Seq<char>)| f.1)
}

/// All findings of a PDF: without text frames, extraction is unavailable and
/// the document needs OCR.
pub open spec fn pdf_findings_all(b: Seq<u8>, max: usize) -> Seq<(SecurityFlag, Seq<char>)> {
    if pdf_spans(b, max).len() == 0 {
        pdf_findings_read(b, max) + seq![
            (SecurityFlag::PdfExtractionUnavailable, "pdf text extraction produced no text frames"@),
            (SecurityFlag::PdfNeedsOcr, Seq::<char>::empty()),
        ]
    } else {
        pdf_findings_read(b, max)
    }
}

/// The flags of all findings.
pub open spec fn pdf_flags(b: Seq<u8>, max: usize) -> Seq<SecurityFlag> {
    flags_of(pdf_findings_all(b, max))
}

/// The reasons of all findings (the OCR flag adds none).
pub open spec fn pdf_reasons(b: Seq<u8>, max: usize) -> Seq<Seq<char>> {
    if pdf_spans(b, max).len() == 0 {
        reasons_of(pdf_findings_read(b, max)).push("pdf text extraction produced no text frames"@)
    } else {
        reasons_of(pdf_findings_read(b, max))
    }
}

/// The fields every parsed frame of a source carries.
pub open spec fn frame_common(f: ParsedFrame, source_id: Seq<char>, source_hash: Seq<char>, version: Seq<char>, declared: Option<String>, sniffed: Seq<char>) -> bool {
    &&& f.source_id@ == source_id
    &&& f.source_hash@ == source_hash
    &&& f.parser_version@ == version
    &&& f.mime_sniff.declared == declared
    &&& f.mime_sniff.sniffed@ == sniffed
    &&& f.text_hash@ == hash_text_spec(f.text@)
    &&& f.trust_level == TrustLevel::Untrusted
    &&& f.taint == Taint::UntrustedContent
    &&& f.schema_hash@ == PARSED_FRAME_SCHEMA_HASH@
}

/// Whether `a` is the artifact of the degraded PDF parse of the bytes: one
/// frame per text span, each carrying the findings made before extraction's
/// end; the status partial unless the only flag is the untrusted-content one;
/// the reasons joined by `; `.
pub open spec fn pdf_artifact(
    source_id: Seq<char>,
    source_hash: Seq<char>,
    declared: Option<String>,
    sniffed: Seq<char>,
    b: Seq<u8>,
    max: usize,
    a: ParsedArtifact,
) -> bool {
    let spans = pdf_spans(b, max);
    let flags = pdf_flags(b, max);
    let reasons = pdf_reasons(b, max);
    &&& a.source_id@ == source_id
    &&& a.source_hash@ == source_hash
    &&& a.parser_version@ == PDF_PARSER_VERSION@
    &&& a.status == (if spans.len() == 0 || flags.len() > 1 { ImportStage::Partial } else { ImportStage::Parsed })
    &&& a.security_flags@ == flags
    &&& a.frames@.len() == spans.len()
    &&& forall|i: int| 0 <= i < spans.len() ==> {
        let f = #[trigger] a.frames@[i];
        &&& frame_common(f, source_id, source_hash, PDF_PARSER_VERSION@, declared, sniffed)
        &&& f.frame_id@ == frame_id_spec(source_id, i as nat, spans[i].0)
        &&& f.text@ == spans[i].0
        &&& f.byte_range == spans[i].1
        &&& f.page_range is None
        &&& f.line_range == (LineRange { start: 0, end: 0 })
        &&& f.security_flags@ == flags_of(pdf_findings_read(b, max))
    }
    &&& if reasons.len() == 0 {
        a.error_summary is None
    } else {
        a.error_summary matches Some(t) && t@ == joined(reasons, "; "@)
    }
}

fn note(flags: &mut Vec<SecurityFlag>, reasons: &mut Vec<String>, flag: SecurityFlag, reason: String)
    ensures
        final(flags)@ == old(flags)@.push(flag),
        final(reasons)@ == old(reasons)@.push(reason),
{
    flags.push(flag);
    reasons.push(reason);
}

/// The text hash of a frame's text.
fn text_hash(text: &str) -> (r: String)
    ensures
        r@ == hash_text_spec(text@),
{
    sha256_hex(text.as_bytes())
}

/// Parses a PDF without a real extractor (see `pdf_artifact`).
pub fn parse_pdf_stub(
    source_id: &str,
    source_hash: &str,
    declared_mime: Option<String>,
    sniffed_mime: &str,
    bytes: &[u8],
    config: ParserConfig,
    generated_at: Timestamp,
) -> (r: ParsedArtifact)
    ensures
        pdf_artifact(source_id@, source_hash@, declared_mime, sniffed_mime@, bytes@, config.max_pdf_bytes, r),
        r.generated_at == generated_at,
{
    let ghost b = bytes@;
    let ghost max = config.max_pdf_bytes;
    let mut flags: Vec<SecurityFlag> = Vec::new();
    flags.push(SecurityFlag::UntrustedContent);
    let mut reasons: Vec<String> = Vec::new();
    let ghost mut found: Seq<(SecurityFlag, Seq<char>)> = Seq::empty();
    let magic = has_pdf_magic(bytes);
    if bytes.len() > config.max_pdf_bytes {
        let a = concat3("pdf exceeds configured extractor limit: ", u64_to_decimal(bytes.len() as u64).as_str(), " > ");
        let b2 = concat3(a.as_str(), u64_to_decimal(config.max_pdf_bytes as u64).as_str(), " bytes");
        note(&mut flags, &mut reasons, SecurityFlag::PdfOversized, b2);
        proof { found = found.push((SecurityFlag::PdfOversized, reasons@.last()@)); }
    }
    if !magic {
        note(&mut flags, &mut reasons, SecurityFlag::PdfUnsupported, owned("pdf magic header missing or unsupported"));
        proof { found = found.push((SecurityFlag::PdfUnsupported, reasons@.last()@)); }
    }
    let mut active: Vec<Vec<u8>> = Vec::new();
    active.push(literal_bytes("/javascript"));
    active.push(literal_bytes("/js"));
    active.push(literal_bytes("/launch"));
    active.push(literal_bytes("/openaction"));
    assert(active@.map_values(|n: Vec<u8>| n@) =~= active_needles());
    if pdf_contains_any_case_insensitive(bytes, &active) {
        note(&mut flags, &mut reasons, SecurityFlag::PdfActiveContent, owned("pdf active content was not executed"));
        proof { found = found.push((SecurityFlag::PdfActiveContent, reasons@.last()@)); }
    }
    let mut embedded: Vec<Vec<u8>> = Vec::new();
    embedded.push(literal_bytes("/embeddedfile"));
    embedded.push(literal_bytes("/filespec"));
    assert(embedded@.map_values(|n: Vec<u8>| n@) =~= embedded_needles());
    if pdf_contains_any_case_insensitive(bytes, &embedded) {
        note(&mut flags, &mut reasons, SecurityFlag::PdfEmbeddedFile, owned("pdf embedded files were ignored"));
        proof { found = found.push((SecurityFlag::PdfEmbeddedFile, reasons@.last()@)); }
    }
    proof {
        assert(found =~= pdf_findings(b, max));
        assert(flags@ =~= flags_of(found));
        assert(views(reasons@) =~= reasons_of(found));
    }
    let spans = if magic && bytes.len() <= config.max_pdf_bytes { pdf_text_spans(bytes) } else { Vec::new() };
    assert(spans@.map_values(|s: PdfTextSpan| span_view(s)) =~= pdf_spans(b, max));
    if spans.len() > 0 {
        note(&mut flags, &mut reasons, SecurityFlag::PdfRangeDegraded, owned("pdf text ranges do not include reliable page or line coordinates"));
        proof { found = found.push((SecurityFlag::PdfRangeDegraded, reasons@.last()@)); }
    }
    proof {
        assert(found =~= pdf_findings_read(b, max));
        assert(flags@ =~= flags_of(found));
        assert(views(reasons@) =~= reasons_of(found));
    }
    let frame_flags = flags.clone();
    let mut frames: Vec<ParsedFrame> = Vec::new();
    let mut i: usize = 0;
    while i < spans.len()
        invariant
            i <= spans@.len(),
            spans@.map_values(|s: PdfTextSpan| span_view(s)) == pdf_spans(b, max),
            b == bytes@,
            max == config.max_pdf_bytes,
            frame_flags@ == flags_of(pdf_findings_read(b, max)),
            frames@.len() == i,
            forall|j: int| 0 <= j < i ==> {
                let f = #[trigger] frames@[j];
                &&& frame_common(f, source_id@, source_hash@, PDF_PARSER_VERSION@, declared_mime, sniffed_mime@)
                &&& f.frame_id@ == frame_id_spec(source_id@, j as nat, pdf_spans(b, max)[j].0)
                &&& f.text@ == pdf_spans(b, max)[j].0
                &&& f.byte_range == pdf_spans(b, max)[j].1
                &&& f.page_range is None
                &&& f.line_range == (LineRange { start: 0, end: 0 })
                &&& f.security_flags@ == flags_of(pdf_findings_read(b, max))
            },
        decreases spans@.len() - i,
    {
        let span = &spans[i];
        assert(span_view(spans@[i as int]) == pdf_spans(b, max)[i as int]);
        let frame = ParsedFrame {
            frame_id: frame_id_for(source_id, i, span.text.as_str()),
            source_id: owned(source_id),
            source_hash: owned(source_hash),
            parser_version: owned(PDF_PARSER_VERSION),
            page_range: None,
            line_range: LineRange { start: 0, end: 0 },
            byte_range: span.byte_range,
            mime_sniff: MimeSniff { declared: declared_mime.clone(), sniffed: owned(sniffed_mime) },
            text: span.text.clone(),
            text_hash: text_hash(span.text.as_str()),
            trust_level: TrustLevel::Untrusted,
            taint: Taint::UntrustedContent,
            schema_hash: owned(PARSED_FRAME_SCHEMA_HASH),
            security_flags: frame_flags.clone(),
        };
        frames.push(frame);
        i = i + 1;
    }
    if frames.len() == 0 {
        flags.push(SecurityFlag::PdfExtractionUnavailable);
        flags.push(SecurityFlag::PdfNeedsOcr);
        reasons.push(owned("pdf text extraction produced no text frames"));
    }
    proof {
        assert(flags@ =~= pdf_flags(b, max));
        assert(views(reasons@) =~= pdf_reasons(b, max));
    }
    let status = if frames.len() == 0 || flags.len() > 1 { ImportStage::Partial } else { ImportStage::Parsed };
    let error_summary = if reasons.len() == 0 { None } else { Some(join_with(&reasons, "; ")) };
    ParsedArtifact {
        source_id: owned(source_id),
        source_hash: owned(source_hash),
        parser_version: owned(PDF_PARSER_VERSION),
        status,
        frames,
        security_flags: flags,
        generated_at,
        error_summary,
    }
}

// ---------------------------------------------------------------------------
// Markdown
// ---------------------------------------------------------------------------

/// The flags of a markdown frame: untrusted, and linking outside if it does.
pub open spec fn md_frame_flags(text: Seq<char>) -> Seq<SecurityFlag> {
    if external_reference(text) {
        seq![SecurityFlag::UntrustedContent, SecurityFlag::ExternalReference]
    } else {
        seq![SecurityFlag::UntrustedContent]
    }
}

/// Whether `a` is the artifact of parsing the bytes as markdown: failed when
/// they are not UTF-8; otherwise one frame per paragraph, in order, carrying
/// the paragraph's text, lines and bytes.
pub open spec fn markdown_artifact(
    source_id: Seq<char>,
    source_hash: Seq<char>,
    declared: Option<String>,
    sniffed: Seq<char>,
    b: Seq<u8>,
    a: ParsedArtifact,
) -> bool {
    &&& a.source_id@ == source_id
    &&& a.source_hash@ == source_hash
    &&& a.parser_version@ == MARKDOWN_PARSER_VERSION@
    &&& a.security_flags@ == seq![SecurityFlag::UntrustedContent]
    &&& if !valid_utf8(b) {
        &&& a.status == ImportStage::Failed
        &&& a.frames@.len() == 0
        &&& a.error_summary matches Some(t) && t@ == "markdown source is not valid utf-8"@
    } else {
        let s = decode_utf8(b);
        let ps = paragraphs(s);
        &&& a.status == ImportStage::Parsed
        &&& a.error_summary is None
        &&& a.frames@.len() == ps.len()
        &&& forall|i: int| 0 <= i < ps.len() ==> {
            let f = #[trigger] a.frames@[i];
            &&& frame_common(f, source_id, source_hash, MARKDOWN_PARSER_VERSION@, declared, sniffed)
            &&& 0 <= ps[i].2 <= ps[i].3 <= s.len()
            &&& f.text@ == s.subrange(ps[i].2, ps[i].3)
            &&& f.frame_id@ == frame_id_spec(source_id, i as nat, f.text@)
            &&& f.page_range is None
            &&& f.line_range.start == ps[i].0
            &&& f.line_range.end == ps[i].1
            &&& f.byte_range.start == byte_len(s.subrange(0, ps[i].2))
            &&& f.byte_range.end == byte_len(s.subrange(0, ps[i].3))
            &&& f.security_flags@ == md_frame_flags(f.text@)
        }
    }
}

/// The characters `[a, b)` as a string.
fn text_between(cs: &Vec<char>, a: usize, b: usize) -> (r: String)
    requires
        a <= b <= cs@.len(),
    ensures
        r@ == cs@.subrange(a as int, b as int),
{
    let mut out = String::new();
    let mut k = a;
    while k < b
        invariant
            a <= k <= b <= cs@.len(),
            out@ == cs@.subrange(a as int, k as int),
        decreases b - k,
    {
        push_char(&mut out, cs[k]);
        proof {
            assert(cs@.subrange(a as int, k as int).push(cs@[k as int]) =~= cs@.subrange(a as int, k + 1));
        }
        k = k + 1;
    }
    out
}

/// Parses markdown bytes into paragraph frames (see `markdown_artifact`).
pub fn parse_markdown(
    source_id: &str,
    source_hash: &str,
    declared_mime: Option<String>,
    sniffed_mime: &str,
    bytes: &[u8],
    generated_at: Timestamp,
) -> (r: ParsedArtifact)
    requires
        valid_utf8(bytes@) ==> line_count_from(decode_utf8(bytes@), 0) < u32::MAX,
    ensures
        markdown_artifact(source_id@, source_hash@, declared_mime, sniffed_mime@, bytes@, r),
        r.generated_at == generated_at,
{
    let mut flags: Vec<SecurityFlag> = Vec::new();
    flags.push(SecurityFlag::UntrustedContent);
    let decoded = utf8_text(bytes);
    match decoded {
        None => {
            proof {
                reveal_strlit("markdown source is not valid utf-8");
            }
            ParsedArtifact {
                source_id: owned(source_id),
                source_hash: owned(source_hash),
                parser_version: owned(MARKDOWN_PARSER_VERSION),
                status: ImportStage::Failed,
                frames: Vec::new(),
                security_flags: flags,
                generated_at,
                error_summary: Some(owned("markdown source is not valid utf-8")),
            }
        },
        Some(markdown) => {
            let ghost s = markdown@;
            proof {
                vstd::utf8::encode_utf8_valid_utf8(s);
                vstd::utf8::encode_utf8_decode_utf8(s);
                assert(decode_utf8(bytes@) == s);
            }
            let total = bytes.len();
            assert(byte_len(s) == total);
            let ranges = markdown_paragraphs(markdown.as_str());
            let cs = chars_of(markdown.as_str());
            let ghost ps = paragraphs(s);
            let mut frames: Vec<ParsedFrame> = Vec::new();
            let mut i: usize = 0;
            while i < ranges.len()
                invariant
                    cs@ == s,
                    s == decode_utf8(bytes@),
                    ps == paragraphs(s),
                    ranges@.map_values(|m: MarkdownRange| range_view(m)) == ps,
                    forall|k: int| 0 <= k < ranges@.len() ==> bytes_match(s, #[trigger] ranges@[k]),
                    i <= ranges@.len(),
                    frames@.len() == i,
                    forall|j: int| 0 <= j < i ==> {
                        let f = #[trigger] frames@[j];
                        &&& frame_common(f, source_id@, source_hash@, MARKDOWN_PARSER_VERSION@, declared_mime, sniffed_mime@)
                        &&& 0 <= ps[j].2 <= ps[j].3 <= s.len()
                        &&& f.text@ == s.subrange(ps[j].2, ps[j].3)
                        &&& f.frame_id@ == frame_id_spec(source_id@, j as nat, f.text@)
                        &&& f.page_range is None
                        &&& f.line_range.start == ps[j].0
                        &&& f.line_range.end == ps[j].1
                        &&& f.byte_range.start == byte_len(s.subrange(0, ps[j].2))
                        &&& f.byte_range.end == byte_len(s.subrange(0, ps[j].3))
                        &&& f.security_flags@ == md_frame_flags(f.text@)
                    },
                decreases ranges@.len() - i,
            {
                let m = ranges[i];
                assert(range_view(ranges@[i as int]) == ps[i as int]);
                assert(bytes_match(s, ranges@[i as int]));
                let text = text_between(&cs, m.char_start, m.char_end);
                let mut frame_flags: Vec<SecurityFlag> = Vec::new();
                frame_flags.push(SecurityFlag::UntrustedContent);
                if contains_external_reference(text.as_str()) {
                    frame_flags.push(SecurityFlag::ExternalReference);
                }
                assert(frame_flags@ =~= md_frame_flags(text@));
                let frame = ParsedFrame {
                    frame_id: frame_id_for(source_id, i, text.as_str()),
                    source_id: owned(source_id),
                    source_hash: owned(source_hash),
                    parser_version: owned(MARKDOWN_PARSER_VERSION),
                    page_range: None,
                    line_range: m.line_range,
                    byte_range: m.byte_range,
                    mime_sniff: MimeSniff { declared: declared_mime.clone(), sniffed: owned(sniffed_mime) },
                    text_hash: text_hash(text.as_str()),
                    text,
                    trust_level: TrustLevel::Untrusted,
                    taint: Taint::UntrustedContent,
                    schema_hash: owned(PARSED_FRAME_SCHEMA_HASH),
                    security_flags: frame_flags,
                };
                frames.push(frame);
                i = i + 1;
            }
            ParsedArtifact {
                source_id: owned(source_id),
                source_hash: owned(source_hash),
                parser_version: owned(MARKDOWN_PARSER_VERSION),
                status: ImportStage::Parsed,
                frames,
                security_flags: flags,
                generated_at,
                error_summary: None,
            }
        },
    }
}

/// Each frame of a markdown source is exactly the bytes its byte range
/// spans in the source, and its text hash is the digest of those bytes.
pub proof fn law_markdown_frame_is_its_byte_range(
    source_id: Seq<char>,
    source_hash: Seq<char>,
    declared: Option<String>,
    sniffed: Seq<char>,
    b: Seq<u8>,
    a: ParsedArtifact,
    i: int,
)
    requires
        markdown_artifact(source_id, source_hash, declared, sniffed, b, a),
        valid_utf8(b),
        0 <= i < a.frames@.len(),
    ensures
        a.frames@[i].byte_range.start <= a.frames@[i].byte_range.end <= b.len(),
        vstd::utf8::encode_utf8(a.frames@[i].text@) == b.subrange(
            a.frames@[i].byte_range.start as int,
            a.frames@[i].byte_range.end as int,
        ),
        a.frames@[i].text_hash@ == digest_hex(
            b.subrange(a.frames@[i].byte_range.start as int, a.frames@[i].byte_range.end as int),
        ),
{
    let s = decode_utf8(b);
    let ps = paragraphs(s);
    vstd::utf8::decode_utf8_encode_utf8(b);
    let p2 = ps[i].2;
    let p3 = ps[i].3;
    let f = a.frames@[i];
    let e = |t: Seq<char>| vstd::utf8::encode_utf8(t);
    crate::wiki::markdown::lemma_encode_concat(s.subrange(0, p2), s.subrange(p2, p3));
    assert(s.subrange(0, p2) + s.subrange(p2, p3) =~= s.subrange(0, p3));
    crate::wiki::markdown::lemma_encode_concat(s.subrange(0, p3), s.subrange(p3, s.len() as int));
    assert(s.subrange(0, p3) + s.subrange(p3, s.len() as int) =~= s);
    let b2 = e(s.subrange(0, p2)).len();
    let b3 = e(s.subrange(0, p3)).len();
    assert(b.subrange(b2 as int, b3 as int) =~= e(s.subrange(p2, p3)));
}

} // verus!
