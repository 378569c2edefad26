//! The append-only, content-addressed raw source store: keys, paths and
//! blobs, and the errors of ingestion.

use vstd::prelude::*;

use crate::hash::{digest_hex, is_lower_hex, lemma_hex_lower_digits, hash_bytes, hash_text, hash_text_spec, hex_lower, hex_lower_spec, lemma_hex_lower_len, sha256, sha256_digest};
use crate::sandbox::policy::{sandbox_error_text, SandboxError};
use crate::text::{chars_of, concat2, concat3, decimal, owned, str_eq, string_from_chars, u64_to_decimal};

verus! {

/// What goes wrong while ingesting a source.
#[derive(Debug, Clone, PartialEq, Eq)]
pub enum WikiError {
    Io(String),
    Sandbox(SandboxError),
    RawCasCollision { raw_key: String },
    EmptyWorkspaceKey,
    RawCasRootMismatch { expected_raw_cas_dir: String, actual_raw_cas_dir: String },
    SourceMetadataMismatch { field: String, expected: String, actual: String },
}

pub open spec fn wiki_error_text(e: WikiError) -> Seq<char> {
    match e {
        WikiError::Io(m) => m@,
        WikiError::Sandbox(s) => sandbox_error_text(s),
        WikiError::RawCasCollision { raw_key } => "raw CAS key collision for key "@ + raw_key@,
        WikiError::EmptyWorkspaceKey => "workspace key must not be empty"@,
        WikiError::RawCasRootMismatch { expected_raw_cas_dir, actual_raw_cas_dir } => "raw CAS root "@ + actual_raw_cas_dir@
            + " does not match sandbox raw CAS dir "@ + expected_raw_cas_dir@,
        WikiError::SourceMetadataMismatch { field, expected, actual } => "source metadata "@ + field@ + " mismatch: expected "@
            + expected@ + ", got "@ + actual@,
    }
}

impl WikiError {
    /// The error message.
    pub fn to_string(&self) -> (r: String)
        ensures
            r@ == wiki_error_text(*self),
    {
        match self {
            WikiError::Io(m) => m.clone(),
            WikiError::Sandbox(s) => s.to_string(),
            WikiError::RawCasCollision { raw_key } => concat2("raw CAS key collision for key ", raw_key.as_str()),
            WikiError::EmptyWorkspaceKey => owned("workspace key must not be empty"),
            WikiError::RawCasRootMismatch { expected_raw_cas_dir, actual_raw_cas_dir } => {
                let head = concat3("raw CAS root ", actual_raw_cas_dir.as_str(), " does not match sandbox raw CAS dir ");
                concat2(head.as_str(), expected_raw_cas_dir.as_str())
            },
            WikiError::SourceMetadataMismatch { field, expected, actual } => {
                let a = concat3("source metadata ", field.as_str(), " mismatch: expected ");
                let b = concat3(a.as_str(), expected.as_str(), ", got ");
                concat2(b.as_str(), actual.as_str())
            },
        }
    }
}

impl From<SandboxError> for WikiError {
    fn from(value: SandboxError) -> (r: Self)
        ensures
            r == WikiError::Sandbox(value),
    {
        WikiError::Sandbox(value)
    }
}

impl vstd::std_specs::convert::FromSpecImpl<SandboxError> for WikiError {
    open spec fn obeys_from_spec() -> bool {
        true
    }

    open spec fn from_spec(v: SandboxError) -> WikiError {
        WikiError::Sandbox(v)
    }
}

pub type WikiResult<T> = Result<T, WikiError>;

// ---------------------------------------------------------------------------
// Keyed digests
// ---------------------------------------------------------------------------

/// The 64-byte HMAC key block: the key, or its digest when longer than a
/// block, padded with zeros.
pub open spec fn key_block(key: Seq<u8>) -> Seq<u8> {
    let k = if key.len() > 64 { sha256_digest(key) } else { key };
    k + Seq::new((64 - k.len()) as nat, |i: int| 0u8)
}

/// The key block with every byte XORed with `x`.
pub open spec fn padded(block: Seq<u8>, x: u8) -> Seq<u8> {
    Seq::new(64, |i: int| block[i] ^ x)
}

/// HMAC-SHA-256 of a message under a key.
pub open spec fn hmac_sha256(key: Seq<u8>, message: Seq<u8>) -> Seq<u8> {
    let kb = key_block(key);
    sha256_digest(padded(kb, 0x5c) + sha256_digest(padded(kb, 0x36) + message))
}

fn xor_block(block: &Vec<u8>, x: u8) -> (r: Vec<u8>)
    requires
        block@.len() == 64,
    ensures
        r@ == padded(block@, x),
{
    let mut out: Vec<u8> = Vec::new();
    let mut i: usize = 0;
    while i < 64
        invariant
            i <= 64,
            block@.len() == 64,
            out@ == padded(block@, x).take(i as int),
        decreases 64 - i,
    {
        out.push(block[i] ^ x);
        assert(out@ =~= padded(block@, x).take(i + 1));
        i = i + 1;
    }
    assert(padded(block@, x).take(64) =~= padded(block@, x));
    out
}

fn append_bytes(out: &mut Vec<u8>, more: &[u8])
    ensures
        final(out)@ == old(out)@ + more@,
{
    let ghost start = out@;
    let mut i: usize = 0;
    while i < more.len()
        invariant
            i <= more@.len(),
            out@ == start + more@.take(i as int),
        decreases more@.len() - i,
    {
        out.push(more[i]);
        assert(out@ =~= start + more@.take(i + 1));
        i = i + 1;
    }
    assert(more@.take(i as int) =~= more@);
}

/// The lower-case hex HMAC-SHA-256 of a message under a key.
pub fn hmac_sha256_hex(key: &[u8], message: &[u8]) -> (r: String)
    ensures
        r@ == hex_lower_spec(hmac_sha256(key@, message@)),
        r@.len() == 64,
{
    let mut block: Vec<u8> = Vec::new();
    if key.len() > 64 {
        let d = sha256(key);
        append_bytes(&mut block, d.as_slice());
    } else {
        append_bytes(&mut block, key);
    }
    let ghost k = block@;
    let mut i: usize = block.len();
    while i < 64
        invariant
            k.len() <= i <= 64,
            block@.len() == i,
            block@ == k + Seq::new((i - k.len()) as nat, |j: int| 0u8),
        decreases 64 - i,
    {
        block.push(0);
        assert(block@ =~= k + Seq::new((i + 1 - k.len()) as nat, |j: int| 0u8));
        i = i + 1;
    }
    assert(block@ =~= key_block(key@));
    let inner_pad = xor_block(&block, 0x36);
    let outer_pad = xor_block(&block, 0x5c);
    let mut inner_input = inner_pad;
    append_bytes(&mut inner_input, message);
    let inner = sha256(inner_input.as_slice());
    let mut outer_input = outer_pad;
    append_bytes(&mut outer_input, inner.as_slice());
    let outer = sha256(outer_input.as_slice());
    proof {
        lemma_hex_lower_len(outer@);
    }
    hex_lower(outer.as_slice())
}

/// The bytes a raw key is derived from: the store's label, a zero byte, and
/// the content hash's text.
pub open spec fn raw_key_message(content_hash: Seq<char>) -> Seq<u8> {
    vstd::utf8::encode_utf8("seaki.raw-cas.v1"@) + seq![0u8] + vstd::utf8::encode_utf8(content_hash)
}

/// The raw key of content with the given hash, under a workspace key.
pub open spec fn raw_key_spec(workspace_key: Seq<u8>, content_hash: Seq<char>) -> Seq<char> {
    hex_lower_spec(hmac_sha256(workspace_key, raw_key_message(content_hash)))
}

/// The raw key of content with the given hash, under a workspace key: the
/// hex HMAC of the store's label, a zero byte and the hash.
pub fn workspace_keyed_digest(workspace_key: &[u8], content_hash: &str) -> (r: String)
    ensures
        r@ == raw_key_spec(workspace_key@, content_hash@),
        r@.len() == 64,
{
    let mut message: Vec<u8> = Vec::new();
    append_bytes(&mut message, "seaki.raw-cas.v1".as_bytes());
    message.push(0);
    append_bytes(&mut message, content_hash.as_bytes());
    assert(message@ =~= raw_key_message(content_hash@));
    hmac_sha256_hex(workspace_key, message.as_slice())
}

/// The hex SHA-256 digest of bytes.
pub fn sha256_hex(bytes: &[u8]) -> (r: String)
    ensures
        r@ == digest_hex(bytes@),
        r@.len() == 64,
{
    let d = sha256(bytes);
    let r = hex_lower(d.as_slice());
    proof {
        lemma_hex_lower_len(sha256_digest(bytes@));
    }
    r
}

// ---------------------------------------------------------------------------
// Ids and paths
// ---------------------------------------------------------------------------

/// The first `n` characters are ASCII.
pub open spec fn ascii_prefix(s: Seq<char>, n: int) -> bool {
    n <= s.len() && forall|i: int| 0 <= i < n ==> (#[trigger] s[i] as u32) < 128
}

fn take_chars(s: &str, n: usize) -> (r: String)
    requires
        n <= s@.len(),
    ensures
        r@ == s@.subrange(0, n as int),
{
    let cs = chars_of(s);
    let mut out: Vec<char> = Vec::new();
    let mut i: usize = 0;
    while i < n
        invariant
            i <= n,
            n <= cs@.len(),
            cs@ == s@,
            out@ == s@.subrange(0, i as int),
        decreases n - i,
    {
        out.push(cs[i]);
        assert(out@ =~= s@.subrange(0, i + 1));
        i = i + 1;
    }
    string_from_chars(out.as_slice())
}

/// The id of the source stored under a raw key: `src_` and the key's first
/// 32 characters.
pub fn source_id_for(raw_key: &str) -> (r: String)
    requires
        ascii_prefix(raw_key@, 32),
    ensures
        r@ == "src_"@ + raw_key@.subrange(0, 32),
{
    let head = take_chars(raw_key, 32);
    concat2("src_", head.as_str())
}

/// The id of frame `index` of a source with the given text: the source id,
/// the index, and the first 16 hex digits of the text's digest.
pub open spec fn frame_id_spec(source_id: Seq<char>, index: nat, text: Seq<char>) -> Seq<char> {
    source_id + ":frame:"@ + decimal(index) + ":"@ + hash_text_spec(text).subrange(0, 16)
}

/// The id of frame `index` of a source with the given text.
pub fn frame_id_for(source_id: &str, index: usize, text: &str) -> (r: String)
    ensures
        r@ == frame_id_spec(source_id@, index as nat, text@),
{
    let digest = sha256_hex(text.as_bytes());
    let short = take_chars(digest.as_str(), 16);
    let head = concat3(source_id, ":frame:", u64_to_decimal(index as u64).as_str());
    concat3(head.as_str(), ":", short.as_str())
}

/// `Path::join` on Unix: an absolute part replaces the base; otherwise a
/// separator goes between the two unless the base is empty or already ends
/// in one.
pub open spec fn join_relative(base: Seq<char>, rel: Seq<char>) -> Seq<char> {
    if rel.len() > 0 && rel[0] == '/' {
        rel
    } else if base.len() == 0 || base.last() == '/' {
        base + rel
    } else {
        base + "/"@ + rel
    }
}

/// Whether a key's first two bytes end at a character boundary: it begins
/// with two ASCII characters or with one two-byte character.
pub open spec fn key_head_ok(k: Seq<char>) -> bool {
    ||| (k.len() >= 1 && 0x80 <= (k[0] as u32) && (k[0] as u32) < 0x800)
    ||| (k.len() >= 2 && (k[0] as u32) < 0x80 && (k[1] as u32) < 0x80)
}

/// The characters that make up a key's first two bytes.
pub open spec fn key_head(k: Seq<char>) -> Seq<char> {
    if k.len() >= 1 && 0x80 <= (k[0] as u32) && (k[0] as u32) < 0x800 {
        k.subrange(0, 1)
    } else {
        k.subrange(0, 2)
    }
}

/// Where a raw key's blob lies below the store's root: a directory named by
/// the key's first two bytes, then the key.
pub open spec fn raw_relative_spec(raw_key: Seq<char>) -> Seq<char> {
    join_relative(key_head(raw_key), raw_key)
}

fn join_path(base: &str, rel: &str) -> (r: String)
    ensures
        r@ == join_relative(base@, rel@),
{
    let rs = chars_of(rel);
    if rs.len() > 0 && rs[0] == '/' {
        return owned(rel);
    }
    let cs = chars_of(base);
    if cs.len() == 0 || cs[cs.len() - 1] == '/' {
        concat2(base, rel)
    } else {
        concat3(base, "/", rel)
    }
}

/// Where a raw key's blob lies below the store's root.
pub fn raw_relative_path(raw_key: &str) -> (r: String)
    requires
        key_head_ok(raw_key@),
    ensures
        r@ == raw_relative_spec(raw_key@),
{
    let cs = chars_of(raw_key);
    let c0 = cs[0] as u32;
    let n: usize = if 0x80 <= c0 && c0 < 0x800 { 1 } else { 2 };
    let head = take_chars(raw_key, n);
    join_path(head.as_str(), raw_key)
}

/// A stored raw blob.
#[derive(Debug, Clone, PartialEq, Eq)]
pub struct RawBlob {
    pub raw_key: String,
    pub content_hash: String,
    pub len: u64,
    pub path: String,
    pub newly_written: bool,
}

/// Where a content's blob goes: its hash, its raw key, and its path.
#[derive(Debug, Clone, PartialEq, Eq)]
pub struct RawLocation {
    pub content_hash: String,
    pub raw_key: String,
    pub path: String,
}

/// The raw store of a workspace: a root directory and the workspace's key.
#[derive(Debug, Clone)]
pub struct RawCas {
    root: String,
    workspace_key: Vec<u8>,
}

impl RawCas {
    pub closed spec fn root_spec(&self) -> Seq<char> {
        self.root@
    }

    pub closed spec fn key_spec(&self) -> Seq<u8> {
        self.workspace_key@
    }

    /// A store at `root`; an empty workspace key is refused.
    pub fn new(root: String, workspace_key: Vec<u8>) -> (r: WikiResult<Self>)
        ensures
            workspace_key@.len() == 0 ==> r == Err::<Self, WikiError>(WikiError::EmptyWorkspaceKey),
            workspace_key@.len() > 0 ==> (r matches Ok(c) && c.root_spec() == root@ && c.key_spec() == workspace_key@),
    {
        if workspace_key.len() == 0 {
            return Err(WikiError::EmptyWorkspaceKey);
        }
        Ok(RawCas { root, workspace_key })
    }

    /// The store's root directory.
    pub fn root(&self) -> (r: &str)
        ensures
            r@ == self.root_spec(),
    {
        self.root.as_str()
    }

    /// Where a raw key's blob lies.
    pub fn path_for_key(&self, raw_key: &str) -> (r: String)
        requires
            key_head_ok(raw_key@),
        ensures
            r@ == join_relative(self.root_spec(), raw_relative_spec(raw_key@)),
    {
        let rel = raw_relative_path(raw_key);
        join_path(self.root.as_str(), rel.as_str())
    }

    /// Where content goes: its hash, the raw key derived from the hash under
    /// the workspace key, and the key's path.
    pub fn locate(&self, content: &[u8]) -> (r: RawLocation)
        ensures
            r.content_hash@ == digest_hex(content@),
            r.raw_key@ == raw_key_spec(self.key_spec(), r.content_hash@),
            r.path@ == join_relative(self.root_spec(), raw_relative_spec(r.raw_key@)),
            r.raw_key@.len() == 64,
            is_lower_hex(r.raw_key@),
    {
        let content_hash = sha256_hex(content);
        let raw_key = workspace_keyed_digest(self.workspace_key.as_slice(), content_hash.as_str());
        proof {
            lemma_hex_ascii(hmac_sha256(self.workspace_key@, raw_key_message(content_hash@)));
            lemma_hex_lower_digits(hmac_sha256(self.workspace_key@, raw_key_message(content_hash@)));
        }
        let path = self.path_for_key(raw_key.as_str());
        RawLocation { content_hash, raw_key, path }
    }

    /// The blob already stored at a location: the existing bytes must hash
    /// as the content does, else the key collides.
    pub fn existing_blob(location: &RawLocation, len: u64, existing: &[u8]) -> (r: WikiResult<RawBlob>)
        ensures
            digest_hex(existing@) == location.content_hash@ ==> (r matches Ok(b) && b.raw_key == location.raw_key
                && b.content_hash == location.content_hash && b.len == len && b.path == location.path && !b.newly_written),
            digest_hex(existing@) != location.content_hash@ ==> (r matches Err(WikiError::RawCasCollision { raw_key })
                && raw_key == location.raw_key),
    {
        let found = hash_bytes(existing);
        if !str_eq(found.as_str(), location.content_hash.as_str()) {
            return Err(WikiError::RawCasCollision { raw_key: location.raw_key.clone() });
        }
        Ok(RawBlob {
            raw_key: location.raw_key.clone(),
            content_hash: location.content_hash.clone(),
            len,
            path: location.path.clone(),
            newly_written: false,
        })
    }

    /// The blob just written for a location, at the path it was written to.
    pub fn written_blob(location: &RawLocation, len: u64, path: String) -> (r: RawBlob)
        ensures
            r.raw_key == location.raw_key,
            r.content_hash == location.content_hash,
            r.len == len,
            r.path == path,
            r.newly_written,
    {
        RawBlob {
            raw_key: location.raw_key.clone(),
            content_hash: location.content_hash.clone(),
            len,
            path,
            newly_written: true,
        }
    }
}

/// Hex text is ASCII and does not begin with a separator.
pub proof fn lemma_hex_ascii(bytes: Seq<u8>)
    ensures
        ascii_prefix(hex_lower_spec(bytes), hex_lower_spec(bytes).len() as int),
        hex_lower_spec(bytes).len() == 2 * bytes.len(),
        forall|i: int| 0 <= i < hex_lower_spec(bytes).len() ==> #[trigger] hex_lower_spec(bytes)[i] != '/',
    decreases bytes.len(),
{
    lemma_hex_lower_len(bytes);
    if bytes.len() > 0 {
        lemma_hex_ascii(bytes.drop_last());
        let prev = hex_lower_spec(bytes.drop_last());
        let b = bytes.last();
        let tail = seq![crate::hash::hex_char(b / 16), crate::hash::hex_char(b % 16)];
        assert(hex_lower_spec(bytes) == prev + tail);
        assert forall|i: int| 0 <= i < hex_lower_spec(bytes).len() implies (#[trigger] hex_lower_spec(bytes)[i] as u32) < 128
            && hex_lower_spec(bytes)[i] != '/' by {
            if i < prev.len() {
                assert(hex_lower_spec(bytes)[i] == prev[i]);
            } else {
                assert(hex_lower_spec(bytes)[i] == tail[i - prev.len()]);
            }
        }
    }
}

} // verus!
