//! Markdown sources: a paragraph is a run of non-blank lines, located by its
//! first and last line and by the byte range from the start of its first line
//! to the end of its last one (without the line break).

use vstd::prelude::*;
use vstd::utf8::{encode_scalar, encode_utf8};

use crate::pipe::registry::{char_is_white_space, is_blank, is_white_space};
use crate::text::chars_of;
use crate::wiki::source::{ByteRange, LineRange};

verus! {

/// The number of bytes of the UTF-8 encoding of a text.
pub open spec fn byte_len(s: Seq<char>) -> nat {
    encode_utf8(s).len()
}

/// The UTF-8 encoding of a concatenation is the concatenation of the encodings.
pub proof fn lemma_encode_concat(a: Seq<char>, b: Seq<char>)
    ensures
        encode_utf8(a + b) == encode_utf8(a) + encode_utf8(b),
    decreases a.len(),
{
    if a.len() == 0 {
        assert(a + b =~= b);
        assert(encode_utf8(a) =~= Seq::<u8>::empty());
        assert(encode_utf8(a) + encode_utf8(b) =~= encode_utf8(b));
    } else {
        assert((a + b).drop_first() =~= a.drop_first() + b);
        assert((a + b)[0] == a[0]);
        lemma_encode_concat(a.drop_first(), b);
        assert(encode_scalar(a[0] as u32) + (encode_utf8(a.drop_first()) + encode_utf8(b)) =~= (encode_scalar(
            a[0] as u32,
        ) + encode_utf8(a.drop_first())) + encode_utf8(b));
    }
}

/// Encoding one more character appends that character's encoding.
pub proof fn lemma_byte_len_push(s: Seq<char>, c: char)
    ensures
        byte_len(s.push(c)) == byte_len(s) + encode_scalar(c as u32).len(),
{
    lemma_encode_concat(s, seq![c]);
    assert(s + seq![c] =~= s.push(c));
    assert(seq![c].drop_first() =~= Seq::<char>::empty());
    assert(encode_utf8(Seq::<char>::empty()) =~= Seq::<u8>::empty());
    assert(encode_utf8(seq![c]) =~= encode_scalar(c as u32));
}

/// A prefix encodes to no more bytes than the whole text.
pub proof fn lemma_byte_len_prefix(s: Seq<char>, i: int)
    requires
        0 <= i <= s.len(),
    ensures
        byte_len(s.subrange(0, i)) <= byte_len(s),
{
    lemma_encode_concat(s.subrange(0, i), s.subrange(i, s.len() as int));
    assert(s.subrange(0, i) + s.subrange(i, s.len() as int) =~= s);
}

/// The number of UTF-8 bytes of a character.
fn char_width(c: char) -> (w: usize)
    ensures
        w == encode_scalar(c as u32).len(),
        1 <= w <= 4,
{
    let v = c as u32;
    if v < 0x80 {
        1
    } else if v < 0x800 {
        2
    } else if v < 0x10000 {
        3
    } else {
        4
    }
}

/// Just past the end of the line that starts at `a`: past its line feed,
/// or the end of the text.
pub open spec fn piece_end(s: Seq<char>, a: int) -> int
    decreases s.len() - a,
{
    if a >= s.len() {
        s.len() as int
    } else if s[a] == '\n' {
        a + 1
    } else {
        piece_end(s, a + 1)
    }
}

/// Where the text of the line starting at `a` ends once its line feed and the
/// carriage returns before it are removed.
pub open spec fn strip_cr(s: Seq<char>, a: int, e: int) -> int
    decreases e - a,
{
    if e > a && s[e - 1] == '\r' {
        strip_cr(s, a, e - 1)
    } else {
        e
    }
}

/// The end of the text of the line starting at `a`.
pub open spec fn text_end(s: Seq<char>, a: int) -> int {
    let p = piece_end(s, a);
    let e0 = if p > a && s[p - 1] == '\n' { p - 1 } else { p };
    strip_cr(s, a, e0)
}

pub proof fn lemma_piece_end_bounds(s: Seq<char>, a: int)
    requires
        0 <= a < s.len(),
    ensures
        a < piece_end(s, a) <= s.len(),
    decreases s.len() - a,
{
    if s[a] != '\n' {
        if a + 1 < s.len() {
            lemma_piece_end_bounds(s, a + 1);
        } else {
            assert(piece_end(s, a + 1) == s.len());
        }
    }
}

/// A line with no line feed between `a` and `j` ends where the one at `j` does.
proof fn lemma_piece_end_skip(s: Seq<char>, a: int, j: int)
    requires
        0 <= a <= j <= s.len(),
        forall|q: int| a <= q < j ==> s[q] != '\n',
    ensures
        piece_end(s, a) == piece_end(s, j),
    decreases j - a,
{
    if a < j {
        lemma_piece_end_skip(s, a + 1, j);
    }
}

/// The number of lines of the text from the line starting at `a`.
pub open spec fn line_count_from(s: Seq<char>, a: int) -> nat
    decreases s.len() - a,
{
    if a < 0 || a >= s.len() {
        0
    } else {
        proof {
            lemma_piece_end_bounds(s, a);
        }
        1 + line_count_from(s, piece_end(s, a))
    }
}

/// The paragraphs of the text from the line starting at `a`, numbered `line`,
/// as (first line, last line, first character, end character): `open` is the
/// paragraph still open there (its first character and line) and `pend` the end
/// of its last line so far. A blank line closes the open paragraph; a
/// non-blank one opens one or extends it; the end of the text closes it.
pub open spec fn paragraphs_from(s: Seq<char>, a: int, line: int, open: Option<(int, int)>, pend: int) -> Seq<(int, int, int, int)>
    decreases s.len() - a,
{
    if a < 0 || a >= s.len() {
        match open {
            Some(o) => seq![(o.1, line - 1, o.0, pend)],
            None => Seq::empty(),
        }
    } else {
        proof {
            lemma_piece_end_bounds(s, a);
        }
        let next = piece_end(s, a);
        let e = text_end(s, a);
        if is_blank(s.subrange(a, e)) {
            match open {
                Some(o) => seq![(o.1, line - 1, o.0, pend)] + paragraphs_from(s, next, line + 1, None, pend),
                None => paragraphs_from(s, next, line + 1, None, pend),
            }
        } else {
            let o = match open {
                Some(o) => o,
                None => (a, line),
            };
            paragraphs_from(s, next, line + 1, Some(o), e)
        }
    }
}

/// The paragraphs of a markdown text.
pub open spec fn paragraphs(s: Seq<char>) -> Seq<(int, int, int, int)> {
    paragraphs_from(s, 0, 1, None, 0)
}

/// A paragraph of a markdown text: its lines, its bytes, and its characters.
#[derive(Debug, Clone, Copy, PartialEq, Eq, Structural)]
pub struct MarkdownRange {
    pub line_range: LineRange,
    pub byte_range: ByteRange,
    pub char_start: usize,
    pub char_end: usize,
}

pub open spec fn range_view(m: MarkdownRange) -> (int, int, int, int) {
    (m.line_range.start as int, m.line_range.end as int, m.char_start as int, m.char_end as int)
}

/// Whether a range's byte offsets are those of its characters in `s`.
pub open spec fn bytes_match(s: Seq<char>, m: MarkdownRange) -> bool {
    &&& m.char_start <= m.char_end <= s.len()
    &&& m.byte_range.start == byte_len(s.subrange(0, m.char_start as int))
    &&& m.byte_range.end == byte_len(s.subrange(0, m.char_end as int))
}

/// Scans the line starting at `a`: the index of its line feed (or the end)
/// and the byte offset there.
fn scan_line(cs: &Vec<char>, a: usize, a_byte: usize) -> (r: (usize, usize))
    requires
        a < cs@.len(),
        a_byte == byte_len(cs@.subrange(0, a as int)),
        byte_len(cs@) <= usize::MAX,
    ensures
        a < r.0 + 1 <= cs@.len() + 1,
        r.0 <= cs@.len(),
        r.1 == byte_len(cs@.subrange(0, r.0 as int)),
        forall|q: int| a <= q < r.0 ==> cs@[q] != '\n',
        r.0 < cs@.len() ==> cs@[r.0 as int] == '\n',
{
    let ghost s = cs@;
    let mut j = a;
    let mut j_byte = a_byte;
    while j < cs.len() && cs[j] != '\n'
        invariant
            s == cs@,
            a <= j <= s.len(),
            j_byte == byte_len(s.subrange(0, j as int)),
            byte_len(s) <= usize::MAX,
            forall|q: int| a <= q < j ==> s[q] != '\n',
        decreases s.len() - j,
    {
        proof {
            lemma_byte_len_push(s.subrange(0, j as int), s[j as int]);
            assert(s.subrange(0, j as int).push(s[j as int]) =~= s.subrange(0, j + 1));
            lemma_byte_len_prefix(s, j + 1);
        }
        let w = char_width(cs[j]);
        j_byte = j_byte + w;
        j = j + 1;
    }
    (j, j_byte)
}

/// Drops the carriage returns that end the line text `[a, e)`.
fn strip_carriage_returns(cs: &Vec<char>, a: usize, e: usize, e_byte: usize) -> (r: (usize, usize))
    requires
        a <= e <= cs@.len(),
        e_byte == byte_len(cs@.subrange(0, e as int)),
    ensures
        r.0 == strip_cr(cs@, a as int, e as int),
        a <= r.0 <= e,
        r.1 == byte_len(cs@.subrange(0, r.0 as int)),
{
    let ghost s = cs@;
    let mut k = e;
    let mut k_byte = e_byte;
    while k > a && cs[k - 1] == '\r'
        invariant
            s == cs@,
            a <= k <= e <= s.len(),
            strip_cr(s, a as int, k as int) == strip_cr(s, a as int, e as int),
            k_byte == byte_len(s.subrange(0, k as int)),
        decreases k,
    {
        proof {
            lemma_byte_len_push(s.subrange(0, k - 1), s[k - 1]);
            assert(s.subrange(0, k - 1).push(s[k - 1]) =~= s.subrange(0, k as int));
        }
        k_byte = k_byte - 1;
        k = k - 1;
    }
    (k, k_byte)
}

/// Whether the characters `[a, e)` are all white space.
fn blank_between(cs: &Vec<char>, a: usize, e: usize) -> (r: bool)
    requires
        a <= e <= cs@.len(),
    ensures
        r == is_blank(cs@.subrange(a as int, e as int)),
{
    let mut k = a;
    while k < e
        invariant
            a <= k <= e <= cs@.len(),
            forall|q: int| a <= q < k ==> is_white_space(#[trigger] cs@[q]),
        decreases e - k,
    {
        if !char_is_white_space(cs[k]) {
            assert(cs@.subrange(a as int, e as int)[k - a] == cs@[k as int]);
            return false;
        }
        k = k + 1;
    }
    assert forall|i: int| 0 <= i < e - a implies is_white_space(#[trigger] cs@.subrange(a as int, e as int)[i]) by {
        assert(cs@.subrange(a as int, e as int)[i] == cs@[a + i]);
    }
    true
}

/// The spec view of the paragraph still open while scanning.
pub open spec fn open_view(open: Option<(usize, u32)>) -> Option<(int, int)> {
    match open {
        Some(o) => Some((o.0 as int, o.1 as int)),
        None => None,
    }
}

/// The paragraphs of a markdown text (see `paragraphs`), with their byte
/// ranges.
pub fn markdown_paragraphs(markdown: &str) -> (r: Vec<MarkdownRange>)
    requires
        line_count_from(markdown@, 0) < u32::MAX,
        byte_len(markdown@) <= usize::MAX,
    ensures
        r@.map_values(|m: MarkdownRange| range_view(m)) == paragraphs(markdown@),
        forall|i: int| 0 <= i < r@.len() ==> bytes_match(markdown@, #[trigger] r@[i]),
{
    let cs = chars_of(markdown);
    let ghost s = markdown@;
    let n = cs.len();
    let mut ranges: Vec<MarkdownRange> = Vec::new();
    let mut open: Option<(usize, u32)> = None;
    let mut open_byte: usize = 0;
    let mut pend: usize = 0;
    let mut pend_byte: usize = 0;
    let mut a: usize = 0;
    let mut a_byte: usize = 0;
    let mut line: u32 = 1;
    proof {
        assert(s.subrange(0, 0) =~= Seq::<char>::empty());
        assert(encode_utf8(Seq::<char>::empty()) =~= Seq::<u8>::empty());
        assert(ranges@.map_values(|m: MarkdownRange| range_view(m)) + paragraphs_from(s, 0, 1, None, 0) =~= paragraphs(s));
    }
    while a < n
        invariant
            cs@ == s,
            n == s.len(),
            a <= n,
            a_byte == byte_len(s.subrange(0, a as int)),
            byte_len(s) <= usize::MAX,
            line >= 1,
            line - 1 + line_count_from(s, a as int) == line_count_from(s, 0),
            line_count_from(s, 0) < u32::MAX,
            pend <= a,
            pend_byte == byte_len(s.subrange(0, pend as int)),
            open matches Some(o) ==> o.0 <= pend && o.1 < line && open_byte == byte_len(s.subrange(0, o.0 as int)),
            ranges@.map_values(|m: MarkdownRange| range_view(m)) + paragraphs_from(s, a as int, line as int, open_view(open), pend as int)
                == paragraphs(s),
            forall|i: int| 0 <= i < ranges@.len() ==> bytes_match(s, #[trigger] ranges@[i]),
        decreases n - a,
    {
        proof {
            lemma_piece_end_bounds(s, a as int);
        }
        let (j, j_byte) = scan_line(&cs, a, a_byte);
        let next = if j < n { j + 1 } else { n };
        proof {
            lemma_piece_end_skip(s, a as int, j as int);
            assert(piece_end(s, a as int) == next);
            if j < n {
                lemma_byte_len_push(s.subrange(0, j as int), s[j as int]);
                assert(s.subrange(0, j as int).push(s[j as int]) =~= s.subrange(0, j + 1));
                lemma_byte_len_prefix(s, j + 1);
            }
            assert(text_end(s, a as int) == strip_cr(s, a as int, j as int));
        }
        let next_byte = if j < n { j_byte + 1 } else { j_byte };
        let (e, e_byte) = strip_carriage_returns(&cs, a, j, j_byte);
        let blank = blank_between(&cs, a, e);
        let ghost old_ranges = ranges@;
        let ghost old_open = open;
        let ghost old_pend = pend;
        if blank {
            match open {
                Some(o) => {
                    let m = MarkdownRange {
                        line_range: LineRange { start: o.1, end: line - 1 },
                        byte_range: ByteRange { start: open_byte, end: pend_byte },
                        char_start: o.0,
                        char_end: pend,
                    };
                    ranges.push(m);
                    open = None;
                    proof {
                        assert(ranges@.map_values(|m: MarkdownRange| range_view(m)) =~= old_ranges.map_values(
                            |m: MarkdownRange| range_view(m),
                        ).push(range_view(m)));
                        assert(ranges@.map_values(|m: MarkdownRange| range_view(m)) + paragraphs_from(
                            s,
                            next as int,
                            line + 1,
                            None,
                            pend as int,
                        ) =~= old_ranges.map_values(|m: MarkdownRange| range_view(m)) + (seq![
                            (o.1 as int, line - 1, o.0 as int, pend as int),
                        ] + paragraphs_from(s, next as int, line + 1, None, pend as int)));
                    }
                },
                None => {},
            }
        } else {
            if open.is_none() {
                open = Some((a, line));
                open_byte = a_byte;
            }
            pend = e;
            pend_byte = e_byte;
        }
        proof {
            assert(paragraphs_from(s, a as int, line as int, open_view(old_open), old_pend as int)
                == paragraphs_from(s, next as int, line + 1, open_view(open), pend as int)
                || blank);
        }
        a = next;
        a_byte = next_byte;
        line = line + 1;
    }
    match open {
        Some(o) => {
            let ghost old_ranges = ranges@;
            let m = MarkdownRange {
                line_range: LineRange { start: o.1, end: line - 1 },
                byte_range: ByteRange { start: open_byte, end: pend_byte },
                char_start: o.0,
                char_end: pend,
            };
            ranges.push(m);
            proof {
                assert(ranges@.map_values(|m: MarkdownRange| range_view(m)) =~= old_ranges.map_values(
                    |m: MarkdownRange| range_view(m),
                ).push(range_view(m)));
            }
        },
        None => {
            proof {
                assert(ranges@.map_values(|m: MarkdownRange| range_view(m)) + Seq::empty() =~= ranges@.map_values(
                    |m: MarkdownRange| range_view(m),
                ));
            }
        },
    }
    ranges
}

} // verus!
