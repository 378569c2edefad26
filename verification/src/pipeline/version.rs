//! Command manifest versioning and compatibility checking.

use vstd::prelude::*;

use crate::text::{chars_of, concat2, concat3, decimal, str_eq, u64_to_decimal};

verus! {

/// Semantic version of a command manifest.
#[derive(Debug, Clone, Copy, PartialEq, Eq, PartialOrd, Ord, Hash, Structural)]
pub struct ManifestVersion {
    pub major: u32,
    pub minor: u32,
    pub patch: u32,
}

/// Compatibility verdict between two manifest versions.
#[derive(Debug, Clone, Copy, PartialEq, Eq, Structural)]
pub enum VersionCompatibility {
    /// Same major, runtime minor at or above the required minor.
    Compatible,
    /// Same major, runtime minor below the required minor.
    BackwardCompatible,
    /// Different major.
    Incompatible,
}

/// A versioned command manifest entry for the registry.
#[derive(Debug, Clone, PartialEq, Eq)]
pub struct VersionedManifest {
    pub command_id: String,
    pub version: ManifestVersion,
    pub schema_hash: String,
    pub deprecated: bool,
}

/// Registry of versioned manifests, kept in registration order.
#[derive(Debug, Clone, Default)]
pub struct VersionedRegistry {
    manifests: Vec<VersionedManifest>,
}

/// `a <= b` in the lexicographic order on (major, minor, patch).
pub open spec fn version_le(a: ManifestVersion, b: ManifestVersion) -> bool {
    ||| a.major < b.major
    ||| (a.major == b.major && a.minor < b.minor)
    ||| (a.major == b.major && a.minor == b.minor && a.patch <= b.patch)
}

/// The compatibility rules of a runtime version against a required one: a
/// different major is incompatible; with the same major, a runtime minor at
/// least the required one is compatible, a lower one backward compatible.
pub open spec fn compatibility(runtime: ManifestVersion, required: ManifestVersion) -> VersionCompatibility {
    if runtime.major != required.major {
        VersionCompatibility::Incompatible
    } else if runtime.minor >= required.minor {
        VersionCompatibility::Compatible
    } else {
        VersionCompatibility::BackwardCompatible
    }
}

/// Splits a text at every `.`, keeping empty pieces (as `str::split('.')`).
pub open spec fn split_dots(s: Seq<char>) -> Seq<Seq<char>>
    decreases s.len(),
{
    if s.len() == 0 {
        seq![Seq::<char>::empty()]
    } else {
        let init = split_dots(s.drop_last());
        if s.last() == '.' {
            init.push(Seq::<char>::empty())
        } else {
            init.update(init.len() - 1, init.last().push(s.last()))
        }
    }
}

pub open spec fn is_digit(c: char) -> bool {
    '0' <= c && c <= '9'
}

pub open spec fn digit_value(c: char) -> nat {
    (c as nat - '0' as nat) as nat
}

/// The decimal value of a sequence of digits.
pub open spec fn digits_value(d: Seq<char>) -> nat
    decreases d.len(),
{
    if d.len() == 0 {
        0
    } else {
        digits_value(d.drop_last()) * 10 + digit_value(d.last())
    }
}

pub open spec fn all_digits(d: Seq<char>) -> bool {
    forall|i: int| 0 <= i < d.len() ==> is_digit(#[trigger] d[i])
}

/// The digits of an unsigned decimal literal: an optional leading `+`, then the digits.
pub open spec fn unsigned_digits(t: Seq<char>) -> Seq<char> {
    if t.len() > 0 && t[0] == '+' { t.drop_first() } else { t }
}

/// The value of `t` read as a `u32` (as `str::parse::<u32>`): `None` when the
/// text is not an optional `+` followed by at least one digit, or is too large.
pub open spec fn parse_u32_spec(t: Seq<char>) -> Option<u32> {
    let d = unsigned_digits(t);
    if d.len() > 0 && all_digits(d) && digits_value(d) <= u32::MAX {
        Some(digits_value(d) as u32)
    } else {
        None
    }
}

/// The version written as `major.minor.patch`, if the text has that shape.
pub open spec fn parse_version_spec(s: Seq<char>) -> Option<ManifestVersion> {
    let parts = split_dots(s);
    if parts.len() == 3 && parse_u32_spec(parts[0]) is Some && parse_u32_spec(parts[1]) is Some
        && parse_u32_spec(parts[2]) is Some {
        Some(ManifestVersion {
            major: parse_u32_spec(parts[0])->0,
            minor: parse_u32_spec(parts[1])->0,
            patch: parse_u32_spec(parts[2])->0,
        })
    } else {
        None
    }
}

/// A version's text: its three numbers in decimal, joined by dots.
pub open spec fn version_text(v: ManifestVersion) -> Seq<char> {
    decimal(v.major as nat) + seq!['.'] + decimal(v.minor as nat) + seq!['.'] + decimal(v.patch as nat)
}

proof fn lemma_decimal_digits(n: nat)
    ensures
        decimal(n).len() > 0,
        all_digits(decimal(n)),
        digits_value(decimal(n)) == n,
    decreases n,
{
    if n >= 10 {
        lemma_decimal_digits(n / 10);
        let d = decimal(n);
        let c = (('0' as nat) + n % 10) as char;
        assert(d == decimal(n / 10).push(c));
        assert(d.drop_last() == decimal(n / 10));
        assert(digit_value(c) == n % 10);
        assert(d.last() == c);
        assert(digits_value(d) == digits_value(decimal(n / 10)) * 10 + digit_value(c));
        assert((n / 10) * 10 + n % 10 == n) by (nonlinear_arith);
        assert forall|i: int| 0 <= i < d.len() implies is_digit(#[trigger] d[i]) by {
            if i < d.len() - 1 {
                assert(d[i] == decimal(n / 10)[i]);
            }
        }
    } else {
        let c = (('0' as nat) + n) as char;
        assert(decimal(n) == seq![c]);
        assert(decimal(n).drop_last() =~= Seq::<char>::empty());
        assert(digit_value(c) == n);
        assert(digits_value(decimal(n)) == digits_value(Seq::<char>::empty()) * 10 + digit_value(c));
    }
}

proof fn lemma_split_no_dot(s: Seq<char>)
    requires
        all_digits(s),
    ensures
        split_dots(s) == seq![s],
    decreases s.len(),
{
    if s.len() > 0 {
        assert(is_digit(s[s.len() - 1]));
        assert(all_digits(s.drop_last()));
        lemma_split_no_dot(s.drop_last());
        assert(s.drop_last().push(s.last()) =~= s);
        assert(seq![s.drop_last()].update(0, s.drop_last().push(s.last())) =~= seq![s]);
    } else {
        assert(s =~= Seq::<char>::empty());
    }
}

proof fn lemma_split_after_dot(a: Seq<char>, b: Seq<char>)
    requires
        all_digits(b),
    ensures
        split_dots(a + seq!['.'] + b) == split_dots(a).push(b),
    decreases b.len(),
{
    let s = a + seq!['.'] + b;
    if b.len() == 0 {
        assert(s.drop_last() =~= a);
        assert(s.last() == '.');
        assert(b =~= Seq::<char>::empty());
    } else {
        let b0 = b.drop_last();
        assert(all_digits(b0));
        lemma_split_after_dot(a, b0);
        assert(s.drop_last() =~= a + seq!['.'] + b0);
        assert(is_digit(b[b.len() - 1]));
        assert(s.last() == b.last());
        let init = split_dots(a + seq!['.'] + b0);
        assert(init == split_dots(a).push(b0));
        assert(init.last() == b0);
        assert(b0.push(b.last()) =~= b);
        assert(init.update(init.len() - 1, init.last().push(s.last())) =~= split_dots(a).push(b));
    }
}

/// Reading a version's text gives the version back.
pub proof fn law_version_text_parses_back(v: ManifestVersion)
    ensures
        parse_version_spec(version_text(v)) == Some(v),
{
    let d1 = decimal(v.major as nat);
    let d2 = decimal(v.minor as nat);
    let d3 = decimal(v.patch as nat);
    lemma_decimal_digits(v.major as nat);
    lemma_decimal_digits(v.minor as nat);
    lemma_decimal_digits(v.patch as nat);
    lemma_split_no_dot(d1);
    lemma_split_after_dot(d1, d2);
    lemma_split_after_dot(d1 + seq!['.'] + d2, d3);
    let parts = split_dots(version_text(v));
    assert(parts =~= seq![d1, d2, d3]);
    assert(is_digit(d1[0]) && is_digit(d2[0]) && is_digit(d3[0]));
    assert(unsigned_digits(d1) == d1);
    assert(unsigned_digits(d2) == d2);
    assert(unsigned_digits(d3) == d3);
}

proof fn lemma_split_dots_nonempty(s: Seq<char>)
    ensures
        split_dots(s).len() >= 1,
    decreases s.len(),
{
    if s.len() > 0 {
        lemma_split_dots_nonempty(s.drop_last());
    }
}

proof fn lemma_digits_value_monotone(d: Seq<char>, i: int)
    requires
        0 <= i <= d.len(),
    ensures
        digits_value(d.take(i)) <= digits_value(d),
    decreases d.len(),
{
    if i < d.len() {
        assert(d.drop_last().take(i) =~= d.take(i));
        lemma_digits_value_monotone(d.drop_last(), i);
    } else {
        assert(d.take(i) =~= d);
    }
}

/// Reads `t` as a `u32`.
fn parse_u32(t: &[char]) -> (r: Option<u32>)
    ensures
        r == parse_u32_spec(t@),
{
    let ghost d = unsigned_digits(t@);
    let start: usize = if t.len() > 0 && t[0] == '+' { 1 } else { 0 };
    assert(d =~= t@.subrange(start as int, t@.len() as int));
    if start >= t.len() {
        return None;
    }
    let mut value: u64 = 0;
    let mut i: usize = start;
    while i < t.len()
        invariant
            start <= i <= t.len(),
            start < t.len(),
            d == unsigned_digits(t@),
            d =~= t@.subrange(start as int, t@.len() as int),
            all_digits(d.take(i - start)),
            value == digits_value(d.take(i - start)),
            value <= u32::MAX,
        decreases t.len() - i,
    {
        let c = t[i];
        if !('0' <= c && c <= '9') {
            assert(!is_digit(d[i - start]));
            assert(!all_digits(d));
            return None;
        }
        let dv = (c as u64) - ('0' as u64);
        assert(d.take(i + 1 - start).drop_last() =~= d.take(i - start));
        assert(d.take(i + 1 - start).last() == c);
        assert(dv == digit_value(c));
        assert(all_digits(d.take(i + 1 - start)));
        let next = value * 10 + dv;
        if next > 0xFFFF_FFFF {
            proof {
                lemma_digits_value_monotone(d, i + 1 - start);
                assert(digits_value(d) > u32::MAX);
            }
            return None;
        }
        value = next;
        i = i + 1;
    }
    assert(d.take(i - start) =~= d);
    Some(value as u32)
}

impl ManifestVersion {
    pub fn new(major: u32, minor: u32, patch: u32) -> (r: Self)
        ensures
            r == (ManifestVersion { major, minor, patch }),
    {
        ManifestVersion { major, minor, patch }
    }

    /// The version written as `major.minor.patch`.
    pub fn to_string(&self) -> (r: String)
        ensures
            r@ == version_text(*self),
    {
        let a = concat3(u64_to_decimal(self.major as u64).as_str(), ".", u64_to_decimal(self.minor as u64).as_str());
        let r = concat3(a.as_str(), ".", u64_to_decimal(self.patch as u64).as_str());
        proof {
            reveal_strlit(".");
        }
        r
    }

    /// Parses `major.minor.patch`, each part a `u32` literal.
    pub fn parse(s: &str) -> (r: Option<Self>)
        ensures
            r == parse_version_spec(s@),
    {
        let cs = chars_of(s);
        let mut parts: Vec<Vec<char>> = Vec::new();
        parts.push(Vec::new());
        let mut i: usize = 0;
        while i < cs.len()
            invariant
                cs@ == s@,
                i <= cs.len(),
                parts@.len() >= 1,
                parts@.len() == split_dots(cs@.take(i as int)).len(),
                forall|k: int| 0 <= k < parts@.len() ==> #[trigger] parts@[k]@ == split_dots(cs@.take(i as int))[k],
            decreases cs.len() - i,
        {
            assert(cs@.take(i + 1).drop_last() =~= cs@.take(i as int));
            let c = cs[i];
            if c == '.' {
                parts.push(Vec::new());
            } else {
                let last = parts.len() - 1;
                let mut piece = parts.pop().unwrap();
                piece.push(c);
                parts.push(piece);
                proof {
                    let sp = split_dots(cs@.take(i + 1));
                    assert forall|k: int| 0 <= k < parts@.len() implies #[trigger] parts@[k]@ == sp[k] by {
                        if k < last {
                        }
                    }
                }
            }
            i = i + 1;
        }
        assert(cs@.take(i as int) =~= s@);
        if parts.len() != 3 {
            return None;
        }
        let major = parse_u32(parts[0].as_slice());
        let minor = parse_u32(parts[1].as_slice());
        let patch = parse_u32(parts[2].as_slice());
        match (major, minor, patch) {
            (Some(major), Some(minor), Some(patch)) => Some(ManifestVersion { major, minor, patch }),
            _ => None,
        }
    }
}

/// Checks a runtime version against a required version.
pub fn check_compatibility(runtime: &ManifestVersion, required: &ManifestVersion) -> (r: VersionCompatibility)
    ensures
        r == compatibility(*runtime, *required),
{
    if runtime.major != required.major {
        return VersionCompatibility::Incompatible;
    }
    if runtime.minor >= required.minor {
        VersionCompatibility::Compatible
    } else {
        VersionCompatibility::BackwardCompatible
    }
}

/// Whether a registered manifest may serve `command_id` at `required`.
pub open spec fn is_candidate(m: VersionedManifest, command_id: Seq<char>, required: ManifestVersion) -> bool {
    &&& m.command_id@ == command_id
    &&& !m.deprecated
    &&& compatibility(m.version, required) != VersionCompatibility::Incompatible
}

/// The manifests behind a sequence of references.
pub open spec fn deref_all(s: Seq<&VersionedManifest>) -> Seq<VersionedManifest> {
    s.map_values(|x: &VersionedManifest| *x)
}

/// Selects the manifests registered for `command_id`.
pub open spec fn has_command(command_id: Seq<char>) -> spec_fn(VersionedManifest) -> bool {
    |m: VersionedManifest| m.command_id@ == command_id
}

impl VersionedRegistry {
    pub closed spec fn entries(&self) -> Seq<VersionedManifest> {
        self.manifests@
    }

    pub fn new() -> (r: Self)
        ensures
            r.entries() == Seq::<VersionedManifest>::empty(),
    {
        VersionedRegistry { manifests: Vec::new() }
    }

    /// Registers a versioned manifest (earlier registrations are kept).
    pub fn register(&mut self, manifest: VersionedManifest)
        ensures
            final(self).entries() == old(self).entries().push(manifest),
    {
        self.manifests.push(manifest);
    }

    /// The best non-deprecated, compatible manifest for `command_id`: the one
    /// with the highest version, the last registered among equals.
    pub fn resolve(&self, command_id: &str, required_version: &ManifestVersion) -> (r: Option<&VersionedManifest>)
        ensures
            r is None <==> (forall|j: int| 0 <= j < self.entries().len()
                ==> !is_candidate(#[trigger] self.entries()[j], command_id@, *required_version)),
            r matches Some(m) ==> exists|i: int| {
                &&& 0 <= i < self.entries().len()
                &&& self.entries()[i] == *m
                &&& is_candidate(*m, command_id@, *required_version)
                &&& (forall|j: int| 0 <= j < self.entries().len()
                    && is_candidate(#[trigger] self.entries()[j], command_id@, *required_version)
                    ==> version_le(self.entries()[j].version, m.version))
                &&& (forall|j: int| i < j < self.entries().len()
                    && is_candidate(#[trigger] self.entries()[j], command_id@, *required_version)
                    ==> self.entries()[j].version != m.version)
            },
    {
        let mut best: Option<usize> = None;
        let mut i: usize = 0;
        while i < self.manifests.len()
            invariant
                i <= self.manifests.len(),
                best is None ==> forall|j: int| 0 <= j < i ==> !is_candidate(#[trigger] self.entries()[j], command_id@, *required_version),
                best matches Some(b) ==> {
                    &&& b < i
                    &&& is_candidate(self.entries()[b as int], command_id@, *required_version)
                    &&& forall|j: int| 0 <= j < i && is_candidate(#[trigger] self.entries()[j], command_id@, *required_version)
                        ==> version_le(self.entries()[j].version, self.entries()[b as int].version)
                    &&& forall|j: int| b < j < i && is_candidate(#[trigger] self.entries()[j], command_id@, *required_version)
                        ==> self.entries()[j].version != self.entries()[b as int].version
                },
            decreases self.manifests.len() - i,
        {
            let m = &self.manifests[i];
            let cand = str_eq(m.command_id.as_str(), command_id) && !m.deprecated
                && check_compatibility(&m.version, required_version) != VersionCompatibility::Incompatible;
            if cand {
                match best {
                    None => {
                        best = Some(i);
                    },
                    Some(b) => {
                        let bv = self.manifests[b].version;
                        let mv = m.version;
                        let ge = mv.major > bv.major || (mv.major == bv.major && mv.minor > bv.minor)
                            || (mv.major == bv.major && mv.minor == bv.minor && mv.patch >= bv.patch);
                        if ge {
                            best = Some(i);
                        }
                    },
                }
            }
            i = i + 1;
        }
        match best {
            None => None,
            Some(b) => Some(&self.manifests[b]),
        }
    }

    /// All manifests registered for `command_id`, in registration order.
    pub fn list_versions(&self, command_id: &str) -> (r: Vec<&VersionedManifest>)
        ensures
            deref_all(r@) == self.entries().filter(has_command(command_id@)),
    {
        let ghost pred = has_command(command_id@);
        let mut r: Vec<&VersionedManifest> = Vec::new();
        let mut i: usize = 0;
        while i < self.manifests.len()
            invariant
                i <= self.manifests.len(),
                pred == has_command(command_id@),
                deref_all(r@) == self.entries().take(i as int).filter(pred),
            decreases self.manifests.len() - i,
        {
            let ghost before = deref_all(r@);
            proof {
                reveal_with_fuel(Seq::<_>::filter, 1);
                assert(self.entries().take(i + 1).drop_last() =~= self.entries().take(i as int));
            }
            let m = &self.manifests[i];
            assert(self.entries().take(i + 1).last() == *m);
            assert(self.entries().take(i + 1).filter(pred) == {
                let sub = self.entries().take(i as int).filter(pred);
                if pred(*m) { sub.push(*m) } else { sub }
            });
            if str_eq(m.command_id.as_str(), command_id) {
                r.push(m);
                assert(deref_all(r@) =~= before.push(*m));
            } else {
                assert(deref_all(r@) =~= before);
            }
            i = i + 1;
        }
        assert(self.entries().take(i as int) =~= self.entries());
        r
    }
}

} // verus!
