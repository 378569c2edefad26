//! SHA-256 digests (through `sha2`) and their lower-case hexadecimal text.

use vstd::prelude::*;
use vstd::string::*;

use sha2::{Digest, Sha256};

use crate::text::push_char;

verus! {

/// The SHA-256 digest of a byte sequence.
pub uninterp spec fn sha256_digest(data: Seq<u8>) -> Seq<u8>;

/// `sha2::Sha256::digest`: the result is the digest of `data`, which is 32 bytes long.
#[verifier::external_body]
pub(crate) fn sha256(data: &[u8]) -> (r: Vec<u8>)
    ensures
        r@ == sha256_digest(data@),
        r@.len() == 32,
{
    Sha256::digest(data).to_vec()
}

/// The lower-case hexadecimal digit for a value below 16.
pub open spec fn hex_char(n: u8) -> char {
    if n < 10 { ((n + 48) as u8) as char } else { ((n - 10 + 97) as u8) as char }
}

/// Two lower-case hexadecimal digits per byte, high nibble first.
pub open spec fn hex_lower_spec(bytes: Seq<u8>) -> Seq<char>
    decreases bytes.len(),
{
    if bytes.len() == 0 {
        Seq::<char>::empty()
    } else {
        hex_lower_spec(bytes.drop_last()) + seq![hex_char(bytes.last() / 16), hex_char(bytes.last() % 16)]
    }
}

/// The lower-case hex SHA-256 digest of a byte string.
pub open spec fn digest_hex(data: Seq<u8>) -> Seq<char> {
    hex_lower_spec(sha256_digest(data))
}

/// The text `hash_text` gives for a string: the hex digest of its UTF-8 bytes.
pub open spec fn hash_text_spec(s: Seq<char>) -> Seq<char> {
    digest_hex(vstd::utf8::encode_utf8(s))
}

pub proof fn lemma_hex_lower_len(bytes: Seq<u8>)
    ensures
        hex_lower_spec(bytes).len() == 2 * bytes.len(),
    decreases bytes.len(),
{
    if bytes.len() > 0 {
        lemma_hex_lower_len(bytes.drop_last());
    }
}

/// Every character is a lower-case hexadecimal digit.
pub open spec fn is_lower_hex(s: Seq<char>) -> bool {
    forall|i: int| 0 <= i < s.len() ==> ('0' <= #[trigger] s[i] <= '9') || ('a' <= s[i] <= 'f')
}

/// The hex text of bytes is made of lower-case hex digits, two per byte.
pub proof fn lemma_hex_lower_digits(bytes: Seq<u8>)
    ensures
        is_lower_hex(hex_lower_spec(bytes)),
        hex_lower_spec(bytes).len() == 2 * bytes.len(),
    decreases bytes.len(),
{
    lemma_hex_lower_len(bytes);
    if bytes.len() > 0 {
        lemma_hex_lower_digits(bytes.drop_last());
        let prev = hex_lower_spec(bytes.drop_last());
        let b = bytes.last();
        let hi = b / 16;
        let lo = b % 16;
        assert(('0' <= hex_char(hi) <= '9') || ('a' <= hex_char(hi) <= 'f'));
        assert(('0' <= hex_char(lo) <= '9') || ('a' <= hex_char(lo) <= 'f'));
        let t = hex_lower_spec(bytes);
        assert(t == prev + seq![hex_char(hi), hex_char(lo)]);
        assert forall|i: int| 0 <= i < t.len() implies ('0' <= #[trigger] t[i] <= '9') || ('a' <= t[i] <= 'f') by {
            if i < prev.len() {
                assert(t[i] == prev[i]);
            }
        }
    }
}

fn hex_digit(n: u8) -> (c: char)
    requires
        n < 16,
    ensures
        c == hex_char(n),
{
    if n < 10 {
        ((n + 48) as u8) as char
    } else {
        ((n - 10 + 97) as u8) as char
    }
}

/// Lower-case hexadecimal text of a byte string.
pub fn hex_lower(bytes: &[u8]) -> (r: String)
    ensures
        r@ == hex_lower_spec(bytes@),
{
    let mut out = String::new();
    let mut i: usize = 0;
    while i < bytes.len()
        invariant
            i <= bytes.len(),
            out@ == hex_lower_spec(bytes@.take(i as int)),
        decreases bytes.len() - i,
    {
        let b = bytes[i];
        assert(bytes@.take(i + 1).drop_last() =~= bytes@.take(i as int));
        push_char(&mut out, hex_digit(b / 16));
        push_char(&mut out, hex_digit(b % 16));
        i = i + 1;
    }
    assert(bytes@.take(i as int) =~= bytes@);
    out
}

/// The lower-case hex SHA-256 digest of `data`.
pub fn hash_bytes(data: &[u8]) -> (r: String)
    ensures
        r@ == digest_hex(data@),
        r@.len() == 64,
        is_lower_hex(r@),
{
    let digest = sha256(data);
    proof {
        lemma_hex_lower_digits(digest@);
    }
    hex_lower(digest.as_slice())
}

/// The hex digest of the UTF-8 bytes of `s`.
pub fn hash_text(s: &str) -> (r: String)
    ensures
        r@ == hash_text_spec(s@),
        r@.len() == 64,
        is_lower_hex(r@),
{
    hash_bytes(s.as_bytes())
}

} // verus!
