//! Workspace path policy over canonical paths. Canonicalising a path touches
//! the file system and is the caller's part: every path handed to this module
//! is canonical (absolute, `/`-separated, no `.` or `..` parts, no trailing `/`
//! except for the root `/`).

use vstd::prelude::*;

use crate::policy::types::{PolicyDecision, PolicyReason, PolicyResult};
use crate::text::{chars_of, str_eq};

verus! {

#[derive(Debug, Clone, PartialEq, Eq)]
pub struct WorkspacePathPolicy {
    workspace_root: String,
    allow_roots: Vec<String>,
    deny_roots: Vec<String>,
}

#[derive(Debug, Clone, PartialEq, Eq)]
pub struct WorkspacePathDecision {
    pub canonical_path: String,
    pub decision: PolicyDecision,
    pub reason: PolicyReason,
}

/// `path` is `root` or lies below it, comparing whole path components.
pub open spec fn path_contains(root: Seq<char>, path: Seq<char>) -> bool {
    ||| path == root
    ||| (root.len() < path.len() && path.take(root.len() as int) == root && ((root.len() > 0
        && root.last() == '/') || path[root.len() as int] == '/'))
}

/// The part of `path` below `root` (for a path strictly below it).
pub open spec fn relative_part(root: Seq<char>, path: Seq<char>) -> Seq<char> {
    if root.len() > 0 && root.last() == '/' {
        path.skip(root.len() as int)
    } else {
        path.skip(root.len() as int + 1)
    }
}

/// The first component of a relative path.
pub open spec fn first_component(s: Seq<char>) -> Seq<char>
    decreases s.len(),
{
    if s.len() == 0 || s[0] == '/' {
        Seq::<char>::empty()
    } else {
        seq![s[0]] + first_component(s.drop_first())
    }
}

/// The directory names that are denied right below the workspace root.
pub open spec fn is_default_deny_name(name: Seq<char>) -> bool {
    name == ".git"@ || name == ".seaki"@ || name == ".codex"@ || name == ".agents"@
}

pub open spec fn contained_in_any(roots: Seq<String>, path: Seq<char>) -> bool {
    exists|i: int| 0 <= i < roots.len() && path_contains((#[trigger] roots[i])@, path)
}

fn path_contains_exec(root: &str, path: &str) -> (r: bool)
    ensures
        r == path_contains(root@, path@),
{
    let rc = chars_of(root);
    let pc = chars_of(path);
    if str_eq(root, path) {
        return true;
    }
    if rc.len() >= pc.len() {
        return false;
    }
    let mut i: usize = 0;
    while i < rc.len()
        invariant
            rc@ == root@,
            pc@ == path@,
            rc.len() < pc.len(),
            i <= rc.len(),
            forall|j: int| 0 <= j < i ==> rc@[j] == pc@[j],
        decreases rc.len() - i,
    {
        if rc[i] != pc[i] {
            assert(path@.take(root@.len() as int)[i as int] != root@[i as int]);
            return false;
        }
        i = i + 1;
    }
    assert(path@.take(root@.len() as int) =~= root@);
    (rc.len() > 0 && rc[rc.len() - 1] == '/') || pc[rc.len()] == '/'
}

pub(crate) fn contained_in_any_exec(roots: &Vec<String>, path: &str) -> (r: bool)
    ensures
        r == contained_in_any(roots@, path@),
{
    let mut i: usize = 0;
    while i < roots.len()
        invariant
            i <= roots.len(),
            forall|j: int| 0 <= j < i ==> !path_contains((#[trigger] roots@[j])@, path@),
        decreases roots.len() - i,
    {
        if path_contains_exec(roots[i].as_str(), path) {
            return true;
        }
        i = i + 1;
    }
    false
}

fn first_component_exec(s: &[char], start: usize) -> (r: Vec<char>)
    requires
        start <= s@.len(),
    ensures
        r@ == first_component(s@.skip(start as int)),
{
    let mut out: Vec<char> = Vec::new();
    let mut i: usize = start;
    while i < s.len() && s[i] != '/'
        invariant
            start <= i <= s@.len(),
            first_component(s@.skip(start as int)) == out@ + first_component(s@.skip(i as int)),
        decreases s@.len() - i,
    {
        assert(s@.skip(i as int).drop_first() =~= s@.skip(i + 1));
        out.push(s[i]);
        i = i + 1;
    }
    out
}

impl WorkspacePathPolicy {
    pub closed spec fn root(&self) -> Seq<char> {
        self.workspace_root@
    }

    pub closed spec fn allows(&self) -> Seq<String> {
        self.allow_roots@
    }

    pub closed spec fn denies(&self) -> Seq<String> {
        self.deny_roots@
    }

    /// Below the workspace root, its first component is one of the default-denied names.
    pub open spec fn default_denied(&self, path: Seq<char>) -> bool {
        &&& path_contains(self.root(), path)
        &&& path != self.root()
        &&& is_default_deny_name(first_component(relative_part(self.root(), path)))
    }

    pub open spec fn allowlisted(&self, path: Seq<char>) -> bool {
        contained_in_any(self.allows(), path)
    }

    pub open spec fn denied(&self, path: Seq<char>) -> bool {
        contained_in_any(self.denies(), path) || self.default_denied(path)
    }

    /// A policy rooted at the (canonical) workspace root, which is also the only allowed root.
    pub fn try_new(workspace_root: String) -> (r: PolicyResult<Self>)
        ensures
            r matches Ok(p) && p.root() == workspace_root@ && p.allows().len() == 1
                && p.allows()[0] == workspace_root && p.denies().len() == 0,
    {
        let mut allow_roots = Vec::new();
        allow_roots.push(workspace_root.clone());
        Ok(WorkspacePathPolicy { workspace_root, allow_roots, deny_roots: Vec::new() })
    }

    /// Replaces the allowed roots (canonical paths).
    pub fn with_allow_roots(self, allow_roots: Vec<String>) -> (r: PolicyResult<Self>)
        ensures
            r matches Ok(p) && p.root() == self.root() && p.allows() == allow_roots@ && p.denies()
                == self.denies(),
    {
        Ok(WorkspacePathPolicy { allow_roots, ..self })
    }

    /// Replaces the denied roots (canonical paths).
    pub fn with_deny_roots(self, deny_roots: Vec<String>) -> (r: PolicyResult<Self>)
        ensures
            r matches Ok(p) && p.root() == self.root() && p.allows() == self.allows() && p.denies()
                == deny_roots@,
    {
        Ok(WorkspacePathPolicy { deny_roots, ..self })
    }

    pub fn workspace_root(&self) -> (r: &str)
        ensures
            r@ == self.root(),
    {
        self.workspace_root.as_str()
    }

    fn is_default_denied(&self, canonical_path: &str) -> (r: bool)
        ensures
            r == self.default_denied(canonical_path@),
    {
        if !path_contains_exec(self.workspace_root.as_str(), canonical_path)
            || str_eq(self.workspace_root.as_str(), canonical_path) {
            return false;
        }
        let rc = chars_of(self.workspace_root.as_str());
        let pc = chars_of(canonical_path);
        assert(self.workspace_root@ != canonical_path@);
        assert(path_contains(self.workspace_root@, canonical_path@));
        assert(rc@.len() < pc@.len());
        assert(rc.len() < pc.len());
        let start = if rc.len() > 0 && rc[rc.len() - 1] == '/' { rc.len() } else { rc.len() + 1 };
        let name = first_component_exec(pc.as_slice(), start);
        let name_str: &[char] = name.as_slice();
        proof {
            reveal_strlit(".git");
            reveal_strlit(".seaki");
            reveal_strlit(".codex");
            reveal_strlit(".agents");
        }
        slice_is(name_str, ".git") || slice_is(name_str, ".seaki") || slice_is(name_str, ".codex")
            || slice_is(name_str, ".agents")
    }

    fn is_allowlisted(&self, canonical_path: &str) -> (r: bool)
        ensures
            r == self.allowlisted(canonical_path@),
    {
        contained_in_any_exec(&self.allow_roots, canonical_path)
    }

    fn is_denied(&self, canonical_path: &str) -> (r: bool)
        ensures
            r == self.denied(canonical_path@),
    {
        contained_in_any_exec(&self.deny_roots, canonical_path) || self.is_default_denied(canonical_path)
    }

    /// A read is allowed under an allowed root and outside every denied root.
    pub fn is_workspace_read_allowed(&self, canonical_path: &str) -> (r: bool)
        ensures
            r == (self.allowlisted(canonical_path@) && !self.denied(canonical_path@)),
    {
        self.is_allowlisted(canonical_path) && !self.is_denied(canonical_path)
    }

    /// Classifies a read of a canonical path: denial wins over the allowlist,
    /// and a path outside every allowed root is outside the workspace.
    pub fn classify_workspace_read(&self, canonical_path: &str) -> (r: PolicyResult<WorkspacePathDecision>)
        ensures
            r matches Ok(d) && d.canonical_path@ == canonical_path@ && d.decision == (if self.allowlisted(
                canonical_path@) && !self.denied(canonical_path@) {
                PolicyDecision::Allow
            } else {
                PolicyDecision::Deny
            }) && d.reason == (if self.denied(canonical_path@) {
                PolicyReason::PathDenied
            } else if self.allowlisted(canonical_path@) {
                PolicyReason::WorkspaceAllowlist
            } else {
                PolicyReason::PathOutsideWorkspace
            }),
    {
        let allowed = self.is_allowlisted(canonical_path);
        let denied = self.is_denied(canonical_path);
        let decision = if allowed && !denied { PolicyDecision::Allow } else { PolicyDecision::Deny };
        let reason = if denied {
            PolicyReason::PathDenied
        } else if allowed {
            PolicyReason::WorkspaceAllowlist
        } else {
            PolicyReason::PathOutsideWorkspace
        };
        Ok(WorkspacePathDecision { canonical_path: crate::text::owned(canonical_path), decision, reason })
    }
}

/// Whether a character slice spells `s`.
fn slice_is(v: &[char], s: &str) -> (r: bool)
    ensures
        r == (v@ == s@),
{
    let t = chars_of(s);
    if v.len() != t.len() {
        return false;
    }
    let mut i: usize = 0;
    while i < v.len()
        invariant
            t@ == s@,
            v.len() == t.len(),
            i <= v.len(),
            forall|j: int| 0 <= j < i ==> v@[j] == t@[j],
        decreases v.len() - i,
    {
        if v[i] != t[i] {
            return false;
        }
        i = i + 1;
    }
    assert(v@ =~= s@);
    true
}

} // verus!
