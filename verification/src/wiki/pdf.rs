//! The degraded PDF reader: text strings inside text objects, nothing more.

use vstd::prelude::*;

use crate::pipe::registry::{is_blank, is_blank_text};
use crate::wiki::source::ByteRange;

verus! {

/// The text `String::from_utf8_lossy` makes of bytes: valid UTF-8 decoded,
/// each invalid sequence replaced by U+FFFD.
pub uninterp spec fn lossy_text(bytes: Seq<u8>) -> Seq<char>;

/// `String::from_utf8_lossy`, owned; valid UTF-8 decodes unchanged.
#[verifier::external_body]
pub(crate) fn utf8_lossy(bytes: &[u8]) -> (r: String)
    ensures
        r@ == lossy_text(bytes@),
        vstd::utf8::valid_utf8(bytes@) ==> r@ == vstd::utf8::decode_utf8(bytes@),
{
    String::from_utf8_lossy(bytes).into_owned()
}

/// `u8::is_ascii_whitespace`: space, tab, line feed, form feed, carriage return.
pub open spec fn ascii_space(b: u8) -> bool {
    b == 32 || b == 9 || b == 10 || b == 12 || b == 13
}

/// `b` holds `token` at `i`.
pub open spec fn bytes_at(b: Seq<u8>, i: int, token: Seq<u8>) -> bool {
    0 <= i && i + token.len() <= b.len() && b.subrange(i, i + token.len()) == token
}

/// A token at `i` standing alone: whitespace (or the edge) on both sides.
pub open spec fn token_spec(b: Seq<u8>, i: int, token: Seq<u8>) -> bool {
    &&& bytes_at(b, i, token)
    &&& (i == 0 || ascii_space(b[i - 1]))
    &&& (i + token.len() >= b.len() || ascii_space(b[i + token.len()]))
}

/// Whether `token` stands alone at `index` of `bytes`.
pub fn token_at(bytes: &[u8], index: usize, token: &[u8]) -> (r: bool)
    requires
        index <= bytes@.len(),
    ensures
        r == token_spec(bytes@, index as int, token@),
{
    let n = bytes.len();
    if n - index < token.len() {
        return false;
    }
    let mut k: usize = 0;
    while k < token.len()
        invariant
            n == bytes@.len(),
            k <= token@.len(),
            index + token@.len() <= bytes@.len(),
            forall|j: int| 0 <= j < k ==> bytes@[index + j] == token@[j],
        decreases token@.len() - k,
    {
        assert(index + k < bytes@.len());
        if bytes[index + k] != token[k] {
            assert(bytes@.subrange(index as int, index + token@.len())[k as int] != token@[k as int]);
            return false;
        }
        k = k + 1;
    }
    assert(bytes@.subrange(index as int, index + token@.len()) =~= token@);
    let before = index == 0 || is_space(bytes[index - 1]);
    let after = index + token.len() >= bytes.len() || is_space(bytes[index + token.len()]);
    before && after
}

fn is_space(b: u8) -> (r: bool)
    ensures
        r == ascii_space(b),
{
    b == 32 || b == 9 || b == 10 || b == 12 || b == 13
}

/// The bytes an escape `\` followed by `next` adds: a named control
/// character, nothing for an escaped line break, else `next` itself.
pub open spec fn escaped(out: Seq<u8>, next: u8) -> Seq<u8> {
    if next == 110 {
        out.push(10)
    } else if next == 114 {
        out.push(13)
    } else if next == 116 {
        out.push(9)
    } else if next == 98 {
        out.push(8)
    } else if next == 102 {
        out.push(12)
    } else if next == 10 || next == 13 {
        out
    } else {
        out.push(next)
    }
}

/// Reading a literal string's content from `i`, `depth` parentheses deep,
/// having decoded `out`: the decoded bytes and the position of the closing
/// parenthesis, or none when the bytes end first.
pub open spec fn lit_scan(b: Seq<u8>, i: int, depth: int, out: Seq<u8>) -> Option<(Seq<u8>, int)>
    decreases b.len() - i,
{
    if i < 0 || i >= b.len() {
        None
    } else if b[i] == 92 {
        if i + 1 >= b.len() {
            None
        } else {
            lit_scan(b, i + 2, depth, escaped(out, b[i + 1]))
        }
    } else if b[i] == 40 {
        lit_scan(b, i + 1, depth + 1, out.push(40))
    } else if b[i] == 41 {
        if depth - 1 == 0 {
            Some((out, i))
        } else {
            lit_scan(b, i + 1, depth - 1, out.push(41))
        }
    } else {
        lit_scan(b, i + 1, depth, out.push(b[i]))
    }
}

/// The literal string opening at `start`: its text, the byte range of its
/// content, and the position after its closing parenthesis.
pub fn parse_pdf_literal_string(bytes: &[u8], start: usize) -> (r: Option<(String, ByteRange, usize)>)
    requires
        start < bytes@.len(),
    ensures
        r is None <==> lit_scan(bytes@, start + 1, 1, Seq::empty()) is None,
        r matches Some((text, range, next)) ==> ({
            let (out, end) = lit_scan(bytes@, start + 1, 1, Seq::empty())->0;
            &&& text@ == lossy_text(out)
            &&& range == (ByteRange { start: (start + 1) as usize, end: end as usize })
            &&& next == end + 1
        }),
{
    let n = bytes.len();
    let mut output: Vec<u8> = Vec::new();
    let mut depth: usize = 1;
    let mut index: usize = start + 1;
    let content_start = index;
    while index < bytes.len()
        invariant
            start < bytes@.len(),
            content_start == start + 1,
            start + 1 <= index,
            1 <= depth <= index - start,
            lit_scan(bytes@, start + 1, 1, Seq::empty()) == lit_scan(bytes@, index as int, depth as int, output@),
        decreases bytes@.len() - index,
    {
        let byte = bytes[index];
        if byte == 92 {
            if index + 1 >= bytes.len() {
                return None;
            }
            let next = bytes[index + 1];
            if next == 110 {
                output.push(10);
            } else if next == 114 {
                output.push(13);
            } else if next == 116 {
                output.push(9);
            } else if next == 98 {
                output.push(8);
            } else if next == 102 {
                output.push(12);
            } else if next == 10 || next == 13 {
            } else {
                output.push(next);
            }
            index = index + 2;
            if index > bytes.len() {
                assert(lit_scan(bytes@, index as int, depth as int, output@) is None);
            }
            continue;
        }
        if byte == 40 {
            depth = depth + 1;
            output.push(byte);
            index = index + 1;
            continue;
        }
        if byte == 41 {
            if depth == 1 {
                let text = utf8_lossy(output.as_slice());
                return Some((text, ByteRange { start: content_start, end: index }, index + 1));
            }
            depth = depth - 1;
            output.push(byte);
            index = index + 1;
            continue;
        }
        output.push(byte);
        index = index + 1;
    }
    None
}

/// A run of text found in a PDF, with the bytes it came from.
pub struct PdfTextSpan {
    pub text: String,
    pub byte_range: ByteRange,
}

/// The text spans from `i` on, `in_text` telling whether a text object is
/// open: `BT` opens one, `ET` closes it, and inside one each literal string
/// whose text is not blank is a span; scanning goes on after each string.
pub open spec fn spans_from(b: Seq<u8>, i: int, in_text: bool) -> Seq<(Seq<char>, ByteRange)>
    decreases b.len() - i,
{
    if i < 0 || i >= b.len() {
        Seq::empty()
    } else if token_spec(b, i, seq![66u8, 84u8]) {
        spans_from(b, i + 2, true)
    } else if token_spec(b, i, seq![69u8, 84u8]) {
        spans_from(b, i + 2, false)
    } else if in_text && b[i] == 40 && lit_scan(b, i + 1, 1, Seq::empty()) is Some {
        let (out, end) = lit_scan(b, i + 1, 1, Seq::empty())->0;
        let rest = if i < end + 1 <= b.len() {
            spans_from(b, end + 1, in_text)
        } else {
            Seq::empty()
        };
        if is_blank(lossy_text(out)) {
            rest
        } else {
            seq![(lossy_text(out), ByteRange { start: (i + 1) as usize, end: end as usize })] + rest
        }
    } else {
        spans_from(b, i + 1, in_text)
    }
}

/// A span by its text and range.
pub open spec fn span_view(s: PdfTextSpan) -> (Seq<char>, ByteRange) {
    (s.text@, s.byte_range)
}

proof fn lemma_lit_scan_end(b: Seq<u8>, i: int, depth: int, out: Seq<u8>)
    ensures
        lit_scan(b, i, depth, out) matches Some((o, end)) ==> i <= end < b.len(),
    decreases b.len() - i,
{
    if 0 <= i < b.len() {
        if b[i] == 92 {
            if i + 1 < b.len() {
                lemma_lit_scan_end(b, i + 2, depth, escaped(out, b[i + 1]));
            }
        } else if b[i] == 40 {
            lemma_lit_scan_end(b, i + 1, depth + 1, out.push(40));
        } else if b[i] == 41 {
            if depth - 1 != 0 {
                lemma_lit_scan_end(b, i + 1, depth - 1, out.push(41));
            }
        } else {
            lemma_lit_scan_end(b, i + 1, depth, out.push(b[i]));
        }
    }
}

/// The text spans of a PDF's bytes (see `spans_from`).
pub fn pdf_text_spans(bytes: &[u8]) -> (r: Vec<PdfTextSpan>)
    ensures
        r@.map_values(|s: PdfTextSpan| span_view(s)) == spans_from(bytes@, 0, false),
{
    let mut spans: Vec<PdfTextSpan> = Vec::new();
    let mut in_text = false;
    let mut index: usize = 0;
    let bt: [u8; 2] = [66, 84];
    let et: [u8; 2] = [69, 84];
    assert(bt@ =~= seq![66u8, 84u8]);
    assert(et@ =~= seq![69u8, 84u8]);
    while index < bytes.len()
        invariant
            index <= bytes@.len(),
            bt@ == seq![66u8, 84u8],
            et@ == seq![69u8, 84u8],
            spans@.map_values(|s: PdfTextSpan| span_view(s)) + spans_from(bytes@, index as int, in_text) == spans_from(bytes@, 0, false),
        decreases bytes@.len() - index,
    {
        let ghost done = spans@.map_values(|s: PdfTextSpan| span_view(s));
        if token_at(bytes, index, bt.as_slice()) {
            in_text = true;
            index = if index + 2 <= bytes.len() { index + 2 } else { bytes.len() };
            continue;
        }
        if token_at(bytes, index, et.as_slice()) {
            in_text = false;
            index = if index + 2 <= bytes.len() { index + 2 } else { bytes.len() };
            continue;
        }
        if in_text && bytes[index] == 40 {
            proof {
                lemma_lit_scan_end(bytes@, index + 1, 1, Seq::empty());
            }
            if let Some((text, byte_range, next_index)) = parse_pdf_literal_string(bytes, index) {
                if !is_blank_text(text.as_str()) {
                    spans.push(PdfTextSpan { text, byte_range });
                    assert(spans@.map_values(|s: PdfTextSpan| span_view(s)) =~= done.push(span_view(spans@.last())));
                    assert(done.push(span_view(spans@.last())) + spans_from(bytes@, next_index as int, in_text) =~= done
                        + spans_from(bytes@, index as int, in_text));
                }
                index = next_index;
                continue;
            }
        }
        index = index + 1;
    }
    assert(spans_from(bytes@, index as int, in_text) =~= Seq::<(Seq<char>, ByteRange)>::empty());
    assert(spans@.map_values(|s: PdfTextSpan| span_view(s)) + Seq::<(Seq<char>, ByteRange)>::empty() =~= spans@.map_values(
        |s: PdfTextSpan| span_view(s),
    ));
    spans
}

} // verus!
