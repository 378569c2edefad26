//! Small text helpers shared by the modules: character access to strings and
//! string building.

use vstd::prelude::*;
use vstd::std_specs::iter::IteratorSpec;
use vstd::string::*;

verus! {

/// Appends one character to a string (`String::push`).
#[verifier::external_body]
pub(crate) fn push_char(s: &mut String, c: char)
    ensures
        final(s)@ == old(s)@.push(c),
{
    s.push(c);
}

/// The text `{:?}` writes for a string: the string in double quotes, with
/// the characters that need it escaped (`str`'s `Debug`).
pub uninterp spec fn str_debug(s: Seq<char>) -> Seq<char>;

/// `str`'s `Debug` text, as `format!("{:?}", s)` writes it.
#[verifier::external_body]
pub(crate) fn debug_quoted(s: &str) -> (r: String)
    ensures
        r@ == str_debug(s@),
{
    format!("{:?}", s)
}

/// The characters of a string slice, in order.
pub(crate) fn chars_of(s: &str) -> (r: Vec<char>)
    ensures
        r@ == s@,
{
    let mut it = s.chars();
    let mut r: Vec<char> = Vec::new();
    loop
        invariant
            r@ + it.remaining() == s@,
            it.decrease() is Some,
        ensures
            r@ == s@,
        decreases it.decrease()->0,
    {
        match it.next() {
            Some(c) => {
                r.push(c);
            },
            None => {
                break;
            },
        }
    }
    r
}

/// Builds a string from a sequence of characters.
pub(crate) fn string_from_chars(v: &[char]) -> (r: String)
    ensures
        r@ == v@,
{
    let mut r = String::new();
    let mut i: usize = 0;
    while i < v.len()
        invariant
            i <= v@.len(),
            r@ == v@.subrange(0, i as int),
        decreases v@.len() - i,
    {
        push_char(&mut r, v[i]);
        i = i + 1;
    }
    r
}

/// Copies a string slice into a new `String`.
pub fn owned(s: &str) -> (r: String)
    ensures
        r@ == s@,
{
    String::from_str(s)
}

/// Concatenates two strings.
pub fn concat2(a: &str, b: &str) -> (r: String)
    ensures
        r@ == a@ + b@,
{
    let mut r = String::from_str(a);
    r.append(b);
    r
}

/// Concatenates three strings.
pub fn concat3(a: &str, b: &str, c: &str) -> (r: String)
    ensures
        r@ == a@ + b@ + c@,
{
    let mut r = String::from_str(a);
    r.append(b);
    r.append(c);
    r
}

/// Whether two strings hold the same characters.
pub fn str_eq(a: &str, b: &str) -> (r: bool)
    ensures
        r == (a@ == b@),
{
    let x = chars_of(a);
    let y = chars_of(b);
    if x.len() != y.len() {
        assert(a@.len() != b@.len());
        return false;
    }
    let mut i: usize = 0;
    while i < x.len()
        invariant
            x@ == a@,
            y@ == b@,
            x.len() == y.len(),
            i <= x.len(),
            forall|j: int| 0 <= j < i ==> x@[j] == y@[j],
        decreases x.len() - i,
    {
        if x[i] != y[i] {
            return false;
        }
        i = i + 1;
    }
    assert(a@ =~= b@);
    true
}

/// The decimal digits of `n`, most significant first, without leading zeros.
pub open spec fn decimal(n: nat) -> Seq<char>
    decreases n,
{
    if n < 10 {
        seq![(('0' as nat) + n) as char]
    } else {
        decimal(n / 10).push((('0' as nat) + n % 10) as char)
    }
}

/// Decimal text of an unsigned integer (as `u64::to_string`).
pub fn u64_to_decimal(n: u64) -> (r: String)
    ensures
        r@ == decimal(n as nat),
    decreases n,
{
    if n < 10 {
        let c = ((48u8 + (n as u8)) as char);
        let mut s = String::new();
        push_char(&mut s, c);
        assert(s@ =~= decimal(n as nat));
        s
    } else {
        let mut s = u64_to_decimal(n / 10);
        let c = ((48u8 + ((n % 10) as u8)) as char);
        push_char(&mut s, c);
        s
    }
}

/// The texts joined with a line break between consecutive ones.
pub open spec fn join_lines(parts: Seq<Seq<char>>) -> Seq<char>
    decreases parts.len(),
{
    if parts.len() == 0 {
        Seq::<char>::empty()
    } else if parts.len() == 1 {
        parts[0]
    } else {
        join_lines(parts.drop_last()) + "\n"@ + parts.last()
    }
}

pub open spec fn views(parts: Seq<String>) -> Seq<Seq<char>> {
    parts.map_values(|s: String| s@)
}

/// Joins the texts with a line break between consecutive ones.
pub fn join_with_newlines(parts: &Vec<String>) -> (r: String)
    ensures
        r@ == join_lines(views(parts@)),
{
    let mut out = String::new();
    let mut i: usize = 0;
    while i < parts.len()
        invariant
            i <= parts.len(),
            out@ == join_lines(views(parts@.take(i as int))),
        decreases parts.len() - i,
    {
        assert(views(parts@.take(i + 1)).drop_last() =~= views(parts@.take(i as int)));
        if i > 0 {
            out.append("\n");
        }
        out.append(parts[i].as_str());
        proof {
            if i == 0 {
                assert(views(parts@.take(1))[0] == parts@[0]@);
                assert(out@ =~= parts@[0]@);
            }
        }
        i = i + 1;
    }
    assert(parts@.take(i as int) =~= parts@);
    out
}

/// The texts joined with `sep` between consecutive ones.
pub open spec fn joined(parts: Seq<Seq<char>>, sep: Seq<char>) -> Seq<char>
    decreases parts.len(),
{
    if parts.len() == 0 {
        Seq::<char>::empty()
    } else if parts.len() == 1 {
        parts[0]
    } else {
        joined(parts.drop_last(), sep) + sep + parts.last()
    }
}

/// Joins the texts with `sep` between consecutive ones.
pub fn join_with(parts: &Vec<String>, sep: &str) -> (r: String)
    ensures
        r@ == joined(views(parts@), sep@),
{
    let mut out = String::new();
    let mut i: usize = 0;
    while i < parts.len()
        invariant
            i <= parts.len(),
            out@ == joined(views(parts@.take(i as int)), sep@),
        decreases parts.len() - i,
    {
        assert(views(parts@.take(i + 1)).drop_last() =~= views(parts@.take(i as int)));
        if i > 0 {
            out.append(sep);
        }
        out.append(parts[i].as_str());
        proof {
            if i == 0 {
                assert(views(parts@.take(1))[0] == parts@[0]@);
                assert(out@ =~= parts@[0]@);
            }
        }
        i = i + 1;
    }
    assert(parts@.take(i as int) =~= parts@);
    out
}

/// A copy of a vector of strings.
pub fn clone_strings(v: &Vec<String>) -> (r: Vec<String>)
    ensures
        r@ == v@,
{
    let mut out: Vec<String> = Vec::new();
    let mut i: usize = 0;
    while i < v.len()
        invariant
            i <= v@.len(),
            out@ == v@.take(i as int),
        decreases v@.len() - i,
    {
        out.push(v[i].clone());
        assert(out@ =~= v@.take(i + 1));
        i = i + 1;
    }
    assert(v@.take(i as int) =~= v@);
    out
}


proof fn lemma_decimal_len(n: nat)
    ensures
        decimal(n).len() >= 1,
        n >= 10 ==> decimal(n).len() >= 2,
    decreases n,
{
    if n >= 10 {
        lemma_decimal_len(n / 10);
    }
}

/// Different numbers have different decimal texts.
pub proof fn lemma_decimal_injective(a: nat, b: nat)
    ensures
        decimal(a) == decimal(b) ==> a == b,
    decreases a,
{
    lemma_decimal_len(a);
    lemma_decimal_len(b);
    if decimal(a) == decimal(b) {
        if a >= 10 && b >= 10 {
            assert(decimal(a).drop_last() == decimal(a / 10));
            assert(decimal(b).drop_last() == decimal(b / 10));
            lemma_decimal_injective(a / 10, b / 10);
            assert(decimal(a).last() == decimal(b).last());
        } else if a < 10 && b < 10 {
            assert(decimal(a)[0] == decimal(b)[0]);
        }
    }
}


/// `t` occurs in `s` at position `i`.
pub open spec fn occurs_at(s: Seq<char>, t: Seq<char>, i: int) -> bool {
    0 <= i && i + t.len() <= s.len() && s.subrange(i, i + t.len()) == t
}

/// `t` occurs somewhere in `s`.
pub open spec fn has_substring(s: Seq<char>, t: Seq<char>) -> bool {
    exists|i: int| #[trigger] occurs_at(s, t, i)
}

/// Whether `t` occurs in `s`.
pub fn contains_str(s: &str, t: &str) -> (r: bool)
    ensures
        r == has_substring(s@, t@),
{
    let a = chars_of(s);
    let b = chars_of(t);
    if b.len() > a.len() {
        assert forall|i: int| !#[trigger] occurs_at(s@, t@, i) by {}
        return false;
    }
    let mut i: usize = 0;
    while i <= a.len() - b.len()
        invariant
            a@ == s@,
            b@ == t@,
            b.len() <= a.len(),
            i <= a.len() - b.len() + 1,
            forall|k: int| 0 <= k < i ==> !#[trigger] occurs_at(s@, t@, k),
        decreases a.len() - b.len() + 1 - i,
    {
        let mut j: usize = 0;
        let mut same = true;
        while j < b.len()
            invariant
                a@ == s@,
                b@ == t@,
                i + b.len() <= a.len(),
                j <= b.len(),
                same <==> forall|m: int| 0 <= m < j ==> a@[i + m] == b@[m],
            decreases b.len() - j,
        {
            if a[i + j] != b[j] {
                same = false;
            }
            j = j + 1;
        }
        if same {
            assert(s@.subrange(i as int, i + t@.len()) =~= t@);
            assert(occurs_at(s@, t@, i as int));
            return true;
        }
        assert(!occurs_at(s@, t@, i as int)) by {
            if s@.subrange(i as int, i + t@.len()) == t@ {
                let m = choose|m: int| 0 <= m < b.len() && a@[i + m] != b@[m];
                assert(s@.subrange(i as int, i + t@.len())[m] == a@[i + m]);
            }
        }
        i = i + 1;
    }
    assert forall|k: int| !#[trigger] occurs_at(s@, t@, k) by {
        if 0 <= k && k + t@.len() <= s@.len() {
            assert(k < i);
        }
    }
    false
}

/// The character with ASCII letters in lower case.
pub open spec fn ascii_lower_char(c: char) -> char {
    if 'A' <= c && c <= 'Z' { ((c as u32) + 32) as char } else { c }
}

pub open spec fn ascii_lower(s: Seq<char>) -> Seq<char> {
    s.map_values(|c: char| ascii_lower_char(c))
}

/// The text with ASCII letters in lower case (`str::to_ascii_lowercase`).
pub fn to_ascii_lower(s: &str) -> (r: String)
    ensures
        r@ == ascii_lower(s@),
{
    let c = chars_of(s);
    let mut out: Vec<char> = Vec::new();
    let mut i: usize = 0;
    while i < c.len()
        invariant
            c@ == s@,
            i <= c@.len(),
            out@.len() == i,
            forall|k: int| 0 <= k < i ==> out@[k] == ascii_lower_char(#[trigger] c@[k]),
        decreases c@.len() - i,
    {
        let ch = c[i];
        let lower = if 'A' <= ch && ch <= 'Z' { ((ch as u32) + 32) as u8 as char } else { ch };
        assert(lower == ascii_lower_char(ch)) by {
            if 'A' <= ch && ch <= 'Z' {
                assert(((ch as u32) + 32) < 256);
            }
        }
        out.push(lower);
        i = i + 1;
    }
    assert(out@ =~= ascii_lower(s@));
    string_from_chars(out.as_slice())
}

// ---------------------------------------------------------------------------
// Ordering strings
// ---------------------------------------------------------------------------

/// The first index at or after `i` where `a` and `b` differ or one ends.
pub open spec fn first_diff(a: Seq<char>, b: Seq<char>, i: int) -> int
    decreases a.len() - i,
{
    if 0 <= i && i < a.len() && i < b.len() && a[i] == b[i] {
        first_diff(a, b, i + 1)
    } else {
        i
    }
}

/// `a` sorts before `b` as `String`s do: by the first character where they
/// differ, or a proper prefix first. (UTF-8 keeps the order of code points, so
/// this is the order of the strings' bytes.)
pub open spec fn str_lt(a: Seq<char>, b: Seq<char>) -> bool {
    let d = first_diff(a, b, 0);
    if d < a.len() && d < b.len() {
        a[d] < b[d]
    } else {
        d == a.len() && d < b.len()
    }
}

pub proof fn lemma_first_diff(a: Seq<char>, b: Seq<char>, i: int)
    requires
        0 <= i <= a.len(),
        i <= b.len(),
    ensures
        i <= first_diff(a, b, i) <= a.len(),
        first_diff(a, b, i) <= b.len(),
        forall|k: int| i <= k < first_diff(a, b, i) ==> a[k] == b[k],
        !(first_diff(a, b, i) < a.len() && first_diff(a, b, i) < b.len() && a[first_diff(a, b, i)] == b[first_diff(a, b, i)]),
        first_diff(a, b, i) == first_diff(b, a, i),
    decreases a.len() - i,
{
    if i < a.len() && i < b.len() && a[i] == b[i] {
        lemma_first_diff(a, b, i + 1);
    }
}

/// Two different strings are ordered one way or the other.
pub proof fn lemma_str_lt_total(a: Seq<char>, b: Seq<char>)
    requires
        a != b,
    ensures
        str_lt(a, b) || str_lt(b, a),
{
    lemma_first_diff(a, b, 0);
    let d = first_diff(a, b, 0);
    if d == a.len() && d == b.len() {
        assert(a =~= b);
    }
}

/// Where two strings that agree up to `d` stop agreeing there, `d` is their
/// first difference.
pub proof fn lemma_first_diff_at(a: Seq<char>, c: Seq<char>, i: int, d: int)
    requires
        0 <= i <= d,
        d <= a.len(),
        d <= c.len(),
        forall|k: int| i <= k < d ==> a[k] == c[k],
        !(d < a.len() && d < c.len() && a[d] == c[d]),
    ensures
        first_diff(a, c, i) == d,
    decreases d - i,
{
    if i < d {
        lemma_first_diff_at(a, c, i + 1, d);
    }
}

/// The order of strings is transitive.
pub proof fn lemma_str_lt_trans(a: Seq<char>, b: Seq<char>, c: Seq<char>)
    requires
        str_lt(a, b),
        str_lt(b, c),
    ensures
        str_lt(a, c),
{
    lemma_first_diff(a, b, 0);
    lemma_first_diff(b, c, 0);
    let d1 = first_diff(a, b, 0);
    let d2 = first_diff(b, c, 0);
    if d1 <= d2 {
        assert forall|k: int| 0 <= k < d1 implies a[k] == c[k] by {
            assert(a[k] == b[k]);
            assert(b[k] == c[k]);
        }
        if d1 < d2 {
            assert(b[d1] == c[d1]);
        }
        lemma_first_diff_at(a, c, 0, d1);
    } else {
        assert forall|k: int| 0 <= k < d2 implies a[k] == c[k] by {
            assert(a[k] == b[k]);
            assert(b[k] == c[k]);
        }
        assert(a[d2] == b[d2]);
        lemma_first_diff_at(a, c, 0, d2);
    }
}

/// Whether `a` sorts before `b` (see `str_lt`).
pub fn str_less(a: &str, b: &str) -> (r: bool)
    ensures
        r == str_lt(a@, b@),
{
    let ca = chars_of(a);
    let cb = chars_of(b);
    let mut i: usize = 0;
    proof {
        lemma_first_diff(a@, b@, 0);
    }
    while i < ca.len() && i < cb.len() && ca[i] == cb[i]
        invariant
            ca@ == a@,
            cb@ == b@,
            i <= ca@.len(),
            i <= cb@.len(),
            first_diff(a@, b@, i as int) == first_diff(a@, b@, 0),
        decreases ca@.len() - i,
    {
        i = i + 1;
    }
    if i < ca.len() && i < cb.len() {
        ca[i] < cb[i]
    } else {
        i == ca.len() && i < cb.len()
    }
}

} // verus!
