//! Pipe command registry: manifest validation, inspect, list.

use vstd::prelude::*;
use vstd::string::*;

use crate::hash::{hash_text, hash_text_spec};
use crate::json::{clone_json, json_from_text, json_of_text, json_text, to_json_text};
use serde_json::Value;
use crate::pipe::frame::{Cardinality, FrameType, TypedFrame};
use crate::text::{chars_of, concat2, lemma_str_lt_total, lemma_str_lt_trans, owned, str_eq, str_less, str_lt};

verus! {

#[derive(Debug, Clone, Copy, PartialEq, Eq, Structural)]
pub struct ResourceQuota {
    pub cpu_ms: u64,
    pub memory_mb: u64,
}

#[derive(Debug, Clone, Copy, PartialEq, Eq, Structural)]
pub enum SideEffectLevel {
    NoEffect,
    ProposalOnly,
    SideEffect,
}

pub open spec fn side_effect_name(l: SideEffectLevel) -> Seq<char> {
    match l {
        SideEffectLevel::NoEffect => "none"@,
        SideEffectLevel::ProposalOnly => "proposal_only"@,
        SideEffectLevel::SideEffect => "side_effect"@,
    }
}

/// The level a name denotes, if any.
pub open spec fn side_effect_from_name(s: Seq<char>) -> Option<SideEffectLevel> {
    if s == "none"@ {
        Some(SideEffectLevel::NoEffect)
    } else if s == "proposal_only"@ {
        Some(SideEffectLevel::ProposalOnly)
    } else if s == "side_effect"@ {
        Some(SideEffectLevel::SideEffect)
    } else {
        None
    }
}

impl SideEffectLevel {
    pub fn as_str(self) -> (r: &'static str)
        ensures
            r@ == side_effect_name(self),
    {
        match self {
            SideEffectLevel::NoEffect => "none",
            SideEffectLevel::ProposalOnly => "proposal_only",
            SideEffectLevel::SideEffect => "side_effect",
        }
    }

    /// Reads a level from its name; any other text is reported back.
    pub fn parse(s: &str) -> (r: Result<SideEffectLevel, String>)
        ensures
            side_effect_from_name(s@) matches Some(l) ==> r == Ok::<SideEffectLevel, String>(l),
            side_effect_from_name(s@) is None ==> (r matches Err(e) && e@ == "unknown side_effect_level: "@ + s@),
    {
        if str_eq(s, "none") {
            Ok(SideEffectLevel::NoEffect)
        } else if str_eq(s, "proposal_only") {
            Ok(SideEffectLevel::ProposalOnly)
        } else if str_eq(s, "side_effect") {
            Ok(SideEffectLevel::SideEffect)
        } else {
            Err(concat2("unknown side_effect_level: ", s))
        }
    }
}

impl core::str::FromStr for SideEffectLevel {
    type Err = String;

    fn from_str(s: &str) -> (r: Result<SideEffectLevel, String>)
        ensures
            side_effect_from_name(s@) matches Some(l) ==> r == Ok::<SideEffectLevel, String>(l),
            side_effect_from_name(s@) is None ==> (r matches Err(e) && e@ == "unknown side_effect_level: "@ + s@),
    {
        SideEffectLevel::parse(s)
    }
}

/// A command's manifest: schemas, frame types, side-effect level and quota.
#[derive(Debug, PartialEq, Eq)]
pub struct PipeCommandManifest {
    pub command_id: String,
    pub description: String,
    pub input_schema: Value,
    pub output_schema: Value,
    pub input_frame: TypedFrame,
    pub output_frame: TypedFrame,
    pub side_effect_level: SideEffectLevel,
    pub resource_quota: Option<ResourceQuota>,
    pub schema_hash: String,
}

/// The canonical schema hash of an input/output schema pair.
pub open spec fn schema_hash_spec(input_schema: Value, output_schema: Value) -> Seq<char> {
    hash_text_spec("input:"@ + json_text(input_schema) + ";output:"@ + json_text(output_schema))
}

impl Clone for PipeCommandManifest {
    fn clone(&self) -> (r: Self)
        ensures
            r == *self,
    {
        PipeCommandManifest {
            command_id: self.command_id.clone(),
            description: self.description.clone(),
            input_schema: clone_json(&self.input_schema),
            output_schema: clone_json(&self.output_schema),
            input_frame: self.input_frame,
            output_frame: self.output_frame,
            side_effect_level: self.side_effect_level,
            resource_quota: self.resource_quota,
            schema_hash: self.schema_hash.clone(),
        }
    }
}

impl PipeCommandManifest {
    /// The canonical schema hash from `input_schema` and `output_schema`.
    pub fn compute_schema_hash(input_schema: &Value, output_schema: &Value) -> (r: String)
        ensures
            r@ == schema_hash_spec(*input_schema, *output_schema),
    {
        let i = to_json_text(input_schema);
        let o = to_json_text(output_schema);
        let mut text = concat2("input:", i.as_str());
        text.append(";output:");
        text.append(o.as_str());
        hash_text(text.as_str())
    }

    /// Whether the stored schema hash is the canonical one.
    pub fn validate_schema_hash(&self) -> (r: bool)
        ensures
            r == (self.schema_hash@ == schema_hash_spec(self.input_schema, self.output_schema)),
    {
        let expected = Self::compute_schema_hash(&self.input_schema, &self.output_schema);
        str_eq(self.schema_hash.as_str(), expected.as_str())
    }
}

#[derive(Debug, Clone, PartialEq, Eq)]
pub enum RegistrationError {
    SchemaHashMismatch { expected: String, found: String },
    DuplicateCommandId(String),
    InvalidCommandId(String),
}

#[derive(Debug, Clone, PartialEq, Eq)]
pub struct CommandNotFound(pub String);

/// Whether `c` has the Unicode `White_Space` property (as `char::is_whitespace`).
pub open spec fn is_white_space(c: char) -> bool {
    ||| ('\t' <= c && c <= '\r')
    ||| c == ' '
    ||| c == '\u{85}'
    ||| c == '\u{a0}'
    ||| c == '\u{1680}'
    ||| ('\u{2000}' <= c && c <= '\u{200a}')
    ||| c == '\u{2028}'
    ||| c == '\u{2029}'
    ||| c == '\u{202f}'
    ||| c == '\u{205f}'
    ||| c == '\u{3000}'
}

/// A text that is empty once surrounding white space is trimmed.
pub open spec fn is_blank(s: Seq<char>) -> bool {
    forall|i: int| 0 <= i < s.len() ==> is_white_space(#[trigger] s[i])
}

pub fn char_is_white_space(c: char) -> (r: bool)
    ensures
        r == is_white_space(c),
{
    ('\t' <= c && c <= '\r') || c == ' ' || c == '\u{85}' || c == '\u{a0}' || c == '\u{1680}'
        || ('\u{2000}' <= c && c <= '\u{200a}') || c == '\u{2028}' || c == '\u{2029}'
        || c == '\u{202f}' || c == '\u{205f}' || c == '\u{3000}'
}

/// Whether `s.trim()` is empty.
pub fn is_blank_text(s: &str) -> (r: bool)
    ensures
        r == is_blank(s@),
{
    let cs = chars_of(s);
    let mut i: usize = 0;
    while i < cs.len()
        invariant
            cs@ == s@,
            i <= cs.len(),
            forall|j: int| 0 <= j < i ==> is_white_space(#[trigger] cs@[j]),
        decreases cs.len() - i,
    {
        if !char_is_white_space(cs[i]) {
            return false;
        }
        i = i + 1;
    }
    true
}

/// Index of the manifest registered for `id`.
pub open spec fn find_manifest(ms: Seq<PipeCommandManifest>, id: Seq<char>) -> Option<int>
    decreases ms.len(),
{
    if ms.len() == 0 {
        None
    } else if ms.last().command_id@ == id {
        Some(ms.len() - 1)
    } else {
        find_manifest(ms.drop_last(), id)
    }
}

pub open spec fn lookup_manifest(ms: Seq<PipeCommandManifest>, id: Seq<char>) -> Option<PipeCommandManifest> {
    match find_manifest(ms, id) {
        Some(i) => Some(ms[i]),
        None => None,
    }
}

pub proof fn lemma_find_manifest(ms: Seq<PipeCommandManifest>, id: Seq<char>)
    ensures
        find_manifest(ms, id) matches Some(i) ==> 0 <= i < ms.len() && ms[i].command_id@ == id,
        find_manifest(ms, id) is None <==> (forall|j: int| 0 <= j < ms.len() ==> (#[trigger] ms[j]).command_id@ != id),
    decreases ms.len(),
{
    if ms.len() > 0 {
        lemma_find_manifest(ms.drop_last(), id);
        if ms.last().command_id@ != id {
            assert forall|j: int| 0 <= j < ms.len() - 1 implies ms.drop_last()[j] == ms[j] by {}
        }
    }
}

/// Command ids are pairwise distinct.
pub open spec fn unique_ids(ms: Seq<PipeCommandManifest>) -> bool {
    forall|i: int, j: int| 0 <= i < j < ms.len() ==> (#[trigger] ms[i]).command_id@ != (#[trigger] ms[j]).command_id@
}

/// The registry's manifests, each command id registered once.
#[derive(Debug, PartialEq, Eq)]
pub struct CommandRegistry {
    commands: Vec<PipeCommandManifest>,
}

impl CommandRegistry {
    /// The registered manifests, in registration order.
    pub closed spec fn manifests(&self) -> Seq<PipeCommandManifest> {
        self.commands@
    }

    /// The registry's invariant: no command id twice.
    pub closed spec fn wf(&self) -> bool {
        unique_ids(self.commands@)
    }

    /// The manifest registered under `id`.
    pub open spec fn lookup(&self, id: Seq<char>) -> Option<PipeCommandManifest> {
        lookup_manifest(self.manifests(), id)
    }

    pub fn new() -> (r: Self)
        ensures
            r.wf(),
            r.manifests() == Seq::<PipeCommandManifest>::empty(),
    {
        CommandRegistry { commands: Vec::new() }
    }

    /// Registers a manifest whose id is not blank, whose schema hash is the
    /// canonical one and whose id is not registered yet.
    pub fn register(&mut self, manifest: PipeCommandManifest) -> (r: Result<(), RegistrationError>)
        requires
            old(self).wf(),
        ensures
            final(self).wf(),
            is_blank(manifest.command_id@) ==> r == Err::<(), RegistrationError>(
                RegistrationError::InvalidCommandId(manifest.command_id)),
            !is_blank(manifest.command_id@) && manifest.schema_hash@ != schema_hash_spec(
                manifest.input_schema, manifest.output_schema) ==> (r matches Err(
                RegistrationError::SchemaHashMismatch { expected, found }) && expected@
                == schema_hash_spec(manifest.input_schema, manifest.output_schema) && found
                == manifest.schema_hash),
            !is_blank(manifest.command_id@) && manifest.schema_hash@ == schema_hash_spec(
                manifest.input_schema, manifest.output_schema) && old(self).lookup(
                manifest.command_id@) is Some ==> r == Err::<(), RegistrationError>(
                RegistrationError::DuplicateCommandId(manifest.command_id)),
            r is Ok <==> (!is_blank(manifest.command_id@) && manifest.schema_hash@
                == schema_hash_spec(manifest.input_schema, manifest.output_schema) && old(
                self).lookup(manifest.command_id@) is None),
            r is Ok ==> final(self).manifests() == old(self).manifests().push(manifest),
            r is Err ==> final(self).manifests() == old(self).manifests(),
    {
        if is_blank_text(manifest.command_id.as_str()) {
            return Err(RegistrationError::InvalidCommandId(manifest.command_id));
        }
        let expected = PipeCommandManifest::compute_schema_hash(&manifest.input_schema, &manifest.output_schema);
        if !str_eq(manifest.schema_hash.as_str(), expected.as_str()) {
            let found = manifest.schema_hash;
            return Err(RegistrationError::SchemaHashMismatch { expected, found });
        }
        match self.find(manifest.command_id.as_str()) {
            Some(_) => {
                return Err(RegistrationError::DuplicateCommandId(manifest.command_id));
            },
            None => {},
        }
        proof {
            lemma_find_manifest(self.commands@, manifest.command_id@);
        }
        self.commands.push(manifest);
        Ok(())
    }

    /// Index of the manifest registered under `command_id`.
    fn find(&self, command_id: &str) -> (r: Option<usize>)
        ensures
            r matches Some(i) ==> find_manifest(self.manifests(), command_id@) == Some(i as int)
                && i < self.manifests().len(),
            r is None ==> find_manifest(self.manifests(), command_id@) is None,
    {
        proof {
            lemma_find_manifest(self.commands@, command_id@);
        }
        let mut i: usize = self.commands.len();
        assert(self.commands@.take(i as int) =~= self.commands@);
        while i > 0
            invariant
                i <= self.commands.len(),
                find_manifest(self.commands@, command_id@) == find_manifest(self.commands@.take(i as int), command_id@),
            decreases i,
        {
            assert(self.commands@.take(i as int).drop_last() =~= self.commands@.take(i - 1));
            if str_eq(self.commands[i - 1].command_id.as_str(), command_id) {
                return Some(i - 1);
            }
            i = i - 1;
        }
        None
    }

    /// The manifest registered under `command_id`.
    pub fn inspect(&self, command_id: &str) -> (r: Result<&PipeCommandManifest, CommandNotFound>)
        ensures
            r matches Ok(m) ==> self.lookup(command_id@) == Some(*m),
            r matches Err(e) ==> self.lookup(command_id@) is None && e.0@ == command_id@,
    {
        match self.find(command_id) {
            Some(i) => Ok(&self.commands[i]),
            None => Err(CommandNotFound(owned(command_id))),
        }
    }

    /// The registered manifests, sorted by command id.
    pub fn list(&self) -> (r: Vec<&PipeCommandManifest>)
        requires
            self.wf(),
        ensures
            r@.len() == self.manifests().len(),
            forall|i: int| 0 <= i < r@.len() ==> self.manifests().contains(*#[trigger] r@[i]),
            forall|i: int, j: int|
                0 <= i < j < r@.len() ==> str_lt((*#[trigger] r@[i]).command_id@, (*#[trigger] r@[j]).command_id@),
    {
        let n = self.commands.len();
        let ghost ms = self.commands@;
        let mut remaining: Vec<usize> = Vec::new();
        let mut k: usize = 0;
        while k < n
            invariant
                k <= n,
                n == ms.len(),
                remaining@.len() == k,
                forall|q: int| 0 <= q < k ==> remaining@[q] == q,
            decreases n - k,
        {
            remaining.push(k);
            k = k + 1;
        }
        let mut out: Vec<&PipeCommandManifest> = Vec::new();
        while remaining.len() > 0
            invariant
                ms == self.commands@,
                n == ms.len(),
                unique_ids(ms),
                out@.len() + remaining@.len() == n,
                forall|q: int| 0 <= q < remaining@.len() ==> #[trigger] remaining@[q] < n,
                forall|q1: int, q2: int|
                    0 <= q1 < q2 < remaining@.len() ==> #[trigger] remaining@[q1] != #[trigger] remaining@[q2],
                forall|i: int| 0 <= i < out@.len() ==> ms.contains(*#[trigger] out@[i]),
                forall|i: int, j: int|
                    0 <= i < j < out@.len() ==> str_lt((*#[trigger] out@[i]).command_id@, (*#[trigger] out@[j]).command_id@),
                forall|i: int, q: int|
                    0 <= i < out@.len() && 0 <= q < remaining@.len() ==> str_lt(
                        (*#[trigger] out@[i]).command_id@,
                        ms[#[trigger] remaining@[q] as int].command_id@,
                    ),
            decreases remaining@.len(),
        {
            let mut best: usize = 0;
            let mut q: usize = 1;
            while q < remaining.len()
                invariant
                    ms == self.commands@,
                    n == ms.len(),
                    unique_ids(ms),
                    best < remaining@.len(),
                    1 <= q <= remaining@.len(),
                    best < q,
                    forall|p: int| 0 <= p < remaining@.len() ==> #[trigger] remaining@[p] < n,
                    forall|q1: int, q2: int|
                        0 <= q1 < q2 < remaining@.len() ==> #[trigger] remaining@[q1] != #[trigger] remaining@[q2],
                    forall|t: int|
                        0 <= t < q && t != best ==> str_lt(
                            ms[remaining@[best as int] as int].command_id@,
                            ms[#[trigger] remaining@[t] as int].command_id@,
                        ),
                decreases remaining@.len() - q,
            {
                let cand = remaining[q];
                let cur = remaining[best];
                if str_less(self.commands[cand].command_id.as_str(), self.commands[cur].command_id.as_str()) {
                    proof {
                        assert forall|t: int| 0 <= t < q + 1 && t != q implies str_lt(
                            ms[cand as int].command_id@,
                            ms[#[trigger] remaining@[t] as int].command_id@,
                        ) by {
                            if t != best {
                                lemma_str_lt_trans(
                                    ms[cand as int].command_id@,
                                    ms[cur as int].command_id@,
                                    ms[remaining@[t] as int].command_id@,
                                );
                            }
                        }
                    }
                    best = q;
                } else {
                    proof {
                        assert(cand != cur);
                        assert(ms[cand as int].command_id@ != ms[cur as int].command_id@) by {
                            if cand < cur {
                                assert(ms[cand as int].command_id@ != ms[cur as int].command_id@);
                            } else {
                                assert(ms[cur as int].command_id@ != ms[cand as int].command_id@);
                            }
                        }
                        lemma_str_lt_total(ms[cand as int].command_id@, ms[cur as int].command_id@);
                    }
                }
                q = q + 1;
            }
            let m = remaining[best];
            let ghost old_out = out@;
            let ghost old_rem = remaining@;
            out.push(&self.commands[m]);
            remaining.remove(best);
            proof {
                assert(ms.contains(ms[m as int]));
                assert forall|i: int, j: int| 0 <= i < j < out@.len() implies str_lt(
                    (*#[trigger] out@[i]).command_id@,
                    (*#[trigger] out@[j]).command_id@,
                ) by {
                    if j == out@.len() - 1 {
                        assert(old_rem[best as int] == m);
                        assert(str_lt((*old_out[i]).command_id@, ms[old_rem[best as int] as int].command_id@));
                    } else {
                        assert(out@[i] == old_out[i]);
                        assert(out@[j] == old_out[j]);
                    }
                }
                assert forall|i: int, p: int| 0 <= i < out@.len() && 0 <= p < remaining@.len() implies str_lt(
                    (*#[trigger] out@[i]).command_id@,
                    ms[#[trigger] remaining@[p] as int].command_id@,
                ) by {
                    let t = if p < best { p } else { p + 1 };
                    assert(remaining@[p] == old_rem[t]);
                    if i == out@.len() - 1 {
                        assert(t != best);
                    } else {
                        assert(out@[i] == old_out[i]);
                    }
                }
                assert forall|q1: int, q2: int| 0 <= q1 < q2 < remaining@.len() implies #[trigger] remaining@[q1]
                    != #[trigger] remaining@[q2] by {
                    let t1 = if q1 < best { q1 } else { q1 + 1 };
                    let t2 = if q2 < best { q2 } else { q2 + 1 };
                    assert(remaining@[q1] == old_rem[t1]);
                    assert(remaining@[q2] == old_rem[t2]);
                }
                assert forall|p: int| 0 <= p < remaining@.len() implies #[trigger] remaining@[p] < n by {
                    let t = if p < best { p } else { p + 1 };
                    assert(remaining@[p] == old_rem[t]);
                }
                assert forall|i: int| 0 <= i < out@.len() implies ms.contains(*#[trigger] out@[i]) by {
                    if i < out@.len() - 1 {
                        assert(out@[i] == old_out[i]);
                    }
                }
            }
        }
        out
    }

    /// The manifests with the given side-effect level, in registration order.
    pub fn list_by_side_effect(&self, level: SideEffectLevel) -> (r: Vec<&PipeCommandManifest>)
        ensures
            deref_manifests(r@) == self.manifests().filter(has_level(level)),
    {
        let ghost pred = has_level(level);
        let mut r: Vec<&PipeCommandManifest> = Vec::new();
        let mut i: usize = 0;
        while i < self.commands.len()
            invariant
                i <= self.commands.len(),
                pred == has_level(level),
                deref_manifests(r@) == self.manifests().take(i as int).filter(pred),
            decreases self.commands.len() - i,
        {
            let ghost before = deref_manifests(r@);
            proof {
                reveal_with_fuel(Seq::<_>::filter, 1);
                assert(self.manifests().take(i + 1).drop_last() =~= self.manifests().take(i as int));
            }
            let m = &self.commands[i];
            assert(self.manifests().take(i + 1).last() == *m);
            if m.side_effect_level == level {
                r.push(m);
                assert(deref_manifests(r@) =~= before.push(*m));
            } else {
                assert(deref_manifests(r@) =~= before);
            }
            i = i + 1;
        }
        assert(self.manifests().take(i as int) =~= self.manifests());
        r
    }
}

/// A manifest the registry accepted is what a lookup of its id gives back.
pub proof fn law_registered_manifest_is_found(before: CommandRegistry, after: CommandRegistry, manifest: PipeCommandManifest)
    requires
        after.manifests() == before.manifests().push(manifest),
    ensures
        after.lookup(manifest.command_id@) == Some(manifest),
{
    assert(after.manifests().last() == manifest);
}

/// Registering a manifest leaves every other id's lookup as it was.
pub proof fn law_register_keeps_other_ids(
    before: CommandRegistry,
    after: CommandRegistry,
    manifest: PipeCommandManifest,
    id: Seq<char>,
)
    requires
        after.manifests() == before.manifests().push(manifest),
        id != manifest.command_id@,
    ensures
        after.lookup(id) == before.lookup(id),
{
    assert(after.manifests().drop_last() =~= before.manifests());
    lemma_find_manifest(before.manifests(), id);
    lemma_find_manifest(after.manifests(), id);
}

pub open spec fn deref_manifests(s: Seq<&PipeCommandManifest>) -> Seq<PipeCommandManifest> {
    s.map_values(|x: &PipeCommandManifest| *x)
}

pub open spec fn has_level(level: SideEffectLevel) -> spec_fn(PipeCommandManifest) -> bool {
    |m: PipeCommandManifest| m.side_effect_level == level
}

#[derive(Debug, Clone, PartialEq, Eq)]
pub enum SideEffectFilter {
    All,
    Level(SideEffectLevel),
}

#[derive(Debug, Clone, PartialEq, Eq)]
pub struct PipeCommandSummary {
    pub command_id: String,
    pub description: String,
    pub side_effect_level: String,
}


/// Whether a manifest has the given id, frames, level and quota, and a canonical schema hash.
pub open spec fn manifest_shape(
    m: PipeCommandManifest,
    id: Seq<char>,
    input_frame: TypedFrame,
    output_frame: TypedFrame,
    level: SideEffectLevel,
    cpu_ms: u64,
    memory_mb: u64,
) -> bool {
    &&& m.command_id@ == id
    &&& m.input_frame == input_frame
    &&& m.output_frame == output_frame
    &&& m.side_effect_level == level
    &&& m.resource_quota == Some(ResourceQuota { cpu_ms, memory_mb })
    &&& m.schema_hash@ == schema_hash_spec(m.input_schema, m.output_schema)
}

/// Whether a manifest has the given description and the schemas read from
/// the given JSON texts.
pub open spec fn manifest_texts(m: PipeCommandManifest, description: Seq<char>, input_schema: Seq<char>, output_schema: Seq<char>) -> bool {
    &&& m.description@ == description
    &&& m.input_schema == json_of_text(input_schema)
    &&& m.output_schema == json_of_text(output_schema)
}

/// The built-in commands: id, input frame, output frame, level, cpu and
/// memory quota, description and schemas.
pub open spec fn builtin_shapes(ms: Seq<PipeCommandManifest>) -> bool {
    &&& ms.len() == 6
    &&& manifest_texts(ms[0], "Search wiki by keyword and return paragraph frames"@, "{\"type\":\"object\",\"properties\":{\"keyword\":{\"type\":\"string\"}},\"required\":[\"keyword\"]}"@, "{\"type\":\"array\",\"items\":{\"$ref\":\"#/definitions/ParagraphFrame\"}}"@)
    &&& manifest_texts(ms[1], "Resolve citations into cited paragraphs"@, "{\"type\":\"array\",\"items\":{\"$ref\":\"#/definitions/ParagraphFrame\"}}"@, "{\"type\":\"array\",\"items\":{\"$ref\":\"#/definitions/CitedParagraph\"}}"@)
    &&& manifest_texts(ms[2], "Summarize cited paragraphs into a text answer"@, "{\"type\":\"array\",\"items\":{\"$ref\":\"#/definitions/CitedParagraph\"}}"@, "{\"type\":\"object\",\"properties\":{\"text\":{\"type\":\"string\"},\"citations\":{\"type\":\"array\"}},\"required\":[\"text\"]}"@)
    &&& manifest_texts(ms[3], "Filter frames by predicate"@, "{\"type\":\"array\"}"@, "{\"type\":\"array\"}"@)
    &&& manifest_texts(ms[4], "Map over frames"@, "{\"type\":\"array\"}"@, "{\"type\":\"array\"}"@)
    &&& manifest_texts(ms[5], "Propose a patch from cited paragraphs"@, "{\"type\":\"array\",\"items\":{\"$ref\":\"#/definitions/CitedParagraph\"}}"@, "{\"type\":\"object\",\"properties\":{\"patch_id\":{\"type\":\"string\"},\"diff\":{\"type\":\"string\"}},\"required\":[\"patch_id\",\"diff\"]}"@)
    &&& manifest_shape(ms[0], "wiki.search"@, (FrameType::JsonValue, Cardinality::One),
        (FrameType::ParagraphFrame, Cardinality::Many), SideEffectLevel::NoEffect, 100, 32)
    &&& manifest_shape(ms[1], "citation.resolve"@, (FrameType::ParagraphFrame, Cardinality::Many),
        (FrameType::CitedParagraph, Cardinality::Many), SideEffectLevel::NoEffect, 50, 16)
    &&& manifest_shape(ms[2], "adr.summarize"@, (FrameType::CitedParagraph, Cardinality::Many),
        (FrameType::TextAnswer, Cardinality::One), SideEffectLevel::NoEffect, 200, 64)
    &&& manifest_shape(ms[3], "filter"@, (FrameType::JsonValue, Cardinality::Many),
        (FrameType::JsonValue, Cardinality::Many), SideEffectLevel::NoEffect, 20, 8)
    &&& manifest_shape(ms[4], "map"@, (FrameType::JsonValue, Cardinality::Many),
        (FrameType::JsonValue, Cardinality::Many), SideEffectLevel::NoEffect, 20, 8)
    &&& manifest_shape(ms[5], "wiki.patch.propose"@, (FrameType::CitedParagraph, Cardinality::Many),
        (FrameType::PatchProposalArtifact, Cardinality::One), SideEffectLevel::ProposalOnly, 300, 128)
}

#[allow(clippy::too_many_arguments)]
fn make_manifest(
    id: &str,
    description: &str,
    input_schema: &serde_json::Value,
    output_schema: &serde_json::Value,
    input_frame: TypedFrame,
    output_frame: TypedFrame,
    level: SideEffectLevel,
    cpu_ms: u64,
    memory_mb: u64,
) -> (m: PipeCommandManifest)
    ensures
        manifest_shape(m, id@, input_frame, output_frame, level, cpu_ms, memory_mb),
        m.description@ == description@,
        m.input_schema == *input_schema,
        m.output_schema == *output_schema,
{
    PipeCommandManifest {
        command_id: owned(id),
        description: owned(description),
        input_schema: clone_json(input_schema),
        output_schema: clone_json(output_schema),
        input_frame,
        output_frame,
        side_effect_level: level,
        resource_quota: Some(ResourceQuota { cpu_ms, memory_mb }),
        schema_hash: PipeCommandManifest::compute_schema_hash(input_schema, output_schema),
    }
}

/// The manifests of the built-in commands.
fn builtin_commands() -> (r: Vec<PipeCommandManifest>)
    ensures
        builtin_shapes(r@),
{
    let input_keyword = json_from_text(
        "{\"type\":\"object\",\"properties\":{\"keyword\":{\"type\":\"string\"}},\"required\":[\"keyword\"]}",
    );
    let output_paragraph_frames = json_from_text(
        "{\"type\":\"array\",\"items\":{\"$ref\":\"#/definitions/ParagraphFrame\"}}",
    );
    let input_cited_paragraphs = json_from_text(
        "{\"type\":\"array\",\"items\":{\"$ref\":\"#/definitions/CitedParagraph\"}}",
    );
    let output_text_answer = json_from_text(
        "{\"type\":\"object\",\"properties\":{\"text\":{\"type\":\"string\"},\"citations\":{\"type\":\"array\"}},\"required\":[\"text\"]}",
    );
    let output_patch_proposal = json_from_text(
        "{\"type\":\"object\",\"properties\":{\"patch_id\":{\"type\":\"string\"},\"diff\":{\"type\":\"string\"}},\"required\":[\"patch_id\",\"diff\"]}",
    );
    let passthrough_array = json_from_text("{\"type\":\"array\"}");
    let mut v: Vec<PipeCommandManifest> = Vec::new();
    v.push(make_manifest("wiki.search", "Search wiki by keyword and return paragraph frames",
        &input_keyword, &output_paragraph_frames, (FrameType::JsonValue, Cardinality::One),
        (FrameType::ParagraphFrame, Cardinality::Many), SideEffectLevel::NoEffect, 100, 32));
    v.push(make_manifest("citation.resolve", "Resolve citations into cited paragraphs",
        &output_paragraph_frames, &input_cited_paragraphs, (FrameType::ParagraphFrame, Cardinality::Many),
        (FrameType::CitedParagraph, Cardinality::Many), SideEffectLevel::NoEffect, 50, 16));
    v.push(make_manifest("adr.summarize", "Summarize cited paragraphs into a text answer",
        &input_cited_paragraphs, &output_text_answer, (FrameType::CitedParagraph, Cardinality::Many),
        (FrameType::TextAnswer, Cardinality::One), SideEffectLevel::NoEffect, 200, 64));
    v.push(make_manifest("filter", "Filter frames by predicate", &passthrough_array,
        &passthrough_array, (FrameType::JsonValue, Cardinality::Many),
        (FrameType::JsonValue, Cardinality::Many), SideEffectLevel::NoEffect, 20, 8));
    v.push(make_manifest("map", "Map over frames", &passthrough_array, &passthrough_array,
        (FrameType::JsonValue, Cardinality::Many), (FrameType::JsonValue, Cardinality::Many),
        SideEffectLevel::NoEffect, 20, 8));
    v.push(make_manifest("wiki.patch.propose", "Propose a patch from cited paragraphs",
        &input_cited_paragraphs, &output_patch_proposal, (FrameType::CitedParagraph, Cardinality::Many),
        (FrameType::PatchProposalArtifact, Cardinality::One), SideEffectLevel::ProposalOnly, 300, 128));
    v
}

impl CommandRegistry {
    /// A registry holding the built-in commands, in the order of `builtin_shapes`.
    pub fn builtin() -> (r: Self)
        ensures
            r.wf(),
            builtin_shapes(r.manifests()),
    {
        let commands = builtin_commands();
        proof {
            reveal_strlit("wiki.search");
            reveal_strlit("citation.resolve");
            reveal_strlit("adr.summarize");
            reveal_strlit("filter");
            reveal_strlit("map");
            reveal_strlit("wiki.patch.propose");
            let ms = commands@;
            assert(ms[0].command_id@[0] == 'w' && ms[0].command_id@.len() == 11);
            assert(ms[1].command_id@[0] == 'c');
            assert(ms[2].command_id@[0] == 'a');
            assert(ms[3].command_id@[0] == 'f');
            assert(ms[4].command_id@[0] == 'm');
            assert(ms[5].command_id@[0] == 'w' && ms[5].command_id@.len() == 18);
            assert(unique_ids(ms));
        }
        CommandRegistry { commands }
    }
}

} // verus!
