//! Sandbox profiles, path policies and seatbelt command plans.

use vstd::prelude::*;

use crate::policy::path::{contained_in_any, contained_in_any_exec};
use crate::policy::types::{SideEffectLevel, Timestamp};
use crate::text::{chars_of, concat2, concat3, owned, push_char, str_eq, u64_to_decimal, decimal};

verus! {

pub const PRIMARY_M0_BACKEND: &'static str = "macos-seatbelt";

pub const MACOS_SEATBELT_EXECUTABLE: &'static str = "/usr/bin/sandbox-exec";

#[derive(Debug, Clone, Copy, PartialEq, Eq, Structural)]
pub enum SandboxProfile {
    ReadOnly,
    WorkspaceWrite,
    SourceIngest,
}

pub open spec fn profile_name(p: SandboxProfile) -> Seq<char> {
    match p {
        SandboxProfile::ReadOnly => "read-only"@,
        SandboxProfile::WorkspaceWrite => "workspace-write"@,
        SandboxProfile::SourceIngest => "source-ingest"@,
    }
}

impl SandboxProfile {
    /// No profile lets a sandboxed process reach the network.
    pub fn allows_network(self) -> (r: bool)
        ensures
            !r,
    {
        false
    }

    pub fn as_str(self) -> (r: &'static str)
        ensures
            r@ == profile_name(self),
    {
        match self {
            SandboxProfile::ReadOnly => "read-only",
            SandboxProfile::WorkspaceWrite => "workspace-write",
            SandboxProfile::SourceIngest => "source-ingest",
        }
    }
}

/// The profile a command with the given side effects runs under: commands
/// without side effects only read, the others may write the workspace.
pub fn profile_for_side_effect(level: SideEffectLevel) -> (r: SandboxProfile)
    ensures
        r == (if level == SideEffectLevel::NoEffect {
            SandboxProfile::ReadOnly
        } else {
            SandboxProfile::WorkspaceWrite
        }),
{
    match level {
        SideEffectLevel::NoEffect => SandboxProfile::ReadOnly,
        SideEffectLevel::ProposalOnly => SandboxProfile::WorkspaceWrite,
        SideEffectLevel::SideEffect => SandboxProfile::WorkspaceWrite,
    }
}

#[derive(Debug, Clone, Copy, PartialEq, Eq, Structural)]
pub enum SandboxBackendKind {
    MacosSeatbelt,
}

impl SandboxBackendKind {
    pub fn as_str(self) -> (r: &'static str)
        ensures
            r@ == PRIMARY_M0_BACKEND@,
    {
        match self {
            SandboxBackendKind::MacosSeatbelt => PRIMARY_M0_BACKEND,
        }
    }
}

#[derive(Debug, Clone, Copy, PartialEq, Eq, Structural)]
pub enum SandboxOperation {
    FileRead,
    FileWrite,
    NetworkRequest,
}

#[derive(Debug, Clone, Copy, PartialEq, Eq, Structural)]
pub enum SandboxDecision {
    Allow,
    Deny,
}

#[derive(Debug, Clone, Copy, PartialEq, Eq, Structural)]
pub enum SandboxDenyReason {
    ReadOutsideAllowedRoots,
    ReadOutsideSourceInput,
    WriteOutsideAllowedRoots,
    SourceInputIsReadOnly,
    UnsafeRelativePath,
    NetworkDenied,
}

pub open spec fn operation_name(o: SandboxOperation) -> Seq<char> {
    match o {
        SandboxOperation::FileRead => "FileRead"@,
        SandboxOperation::FileWrite => "FileWrite"@,
        SandboxOperation::NetworkRequest => "NetworkRequest"@,
    }
}

pub open spec fn reason_name(r: SandboxDenyReason) -> Seq<char> {
    match r {
        SandboxDenyReason::ReadOutsideAllowedRoots => "ReadOutsideAllowedRoots"@,
        SandboxDenyReason::ReadOutsideSourceInput => "ReadOutsideSourceInput"@,
        SandboxDenyReason::WriteOutsideAllowedRoots => "WriteOutsideAllowedRoots"@,
        SandboxDenyReason::SourceInputIsReadOnly => "SourceInputIsReadOnly"@,
        SandboxDenyReason::UnsafeRelativePath => "UnsafeRelativePath"@,
        SandboxDenyReason::NetworkDenied => "NetworkDenied"@,
    }
}

fn operation_str(o: SandboxOperation) -> (r: &'static str)
    ensures
        r@ == operation_name(o),
{
    match o {
        SandboxOperation::FileRead => "FileRead",
        SandboxOperation::FileWrite => "FileWrite",
        SandboxOperation::NetworkRequest => "NetworkRequest",
    }
}

fn reason_str(r: SandboxDenyReason) -> (s: &'static str)
    ensures
        s@ == reason_name(r),
{
    match r {
        SandboxDenyReason::ReadOutsideAllowedRoots => "ReadOutsideAllowedRoots",
        SandboxDenyReason::ReadOutsideSourceInput => "ReadOutsideSourceInput",
        SandboxDenyReason::WriteOutsideAllowedRoots => "WriteOutsideAllowedRoots",
        SandboxDenyReason::SourceInputIsReadOnly => "SourceInputIsReadOnly",
        SandboxDenyReason::UnsafeRelativePath => "UnsafeRelativePath",
        SandboxDenyReason::NetworkDenied => "NetworkDenied",
    }
}

/// Errors of sandboxed operations. I/O failures carry the operating
/// system's message.
#[derive(Debug, Clone, PartialEq, Eq)]
pub enum SandboxError {
    Denied { operation: SandboxOperation, reason: SandboxDenyReason, target: Option<String> },
    Io(String),
    PathCanonicalizeFailed { path: String, message: String },
    TimeoutExceeded { timeout_ms: u64 },
}

pub open spec fn sandbox_error_text(e: SandboxError) -> Seq<char> {
    match e {
        SandboxError::Denied { operation, reason, target } => match target {
            Some(t) => operation_name(operation) + " denied for "@ + t@ + ": "@ + reason_name(reason),
            None => operation_name(operation) + " denied: "@ + reason_name(reason),
        },
        SandboxError::Io(m) => m@,
        SandboxError::PathCanonicalizeFailed { path, message } => "failed to canonicalize "@ + path@ + ": "@ + message@,
        SandboxError::TimeoutExceeded { timeout_ms } => "sandboxed command timed out after "@ + decimal(timeout_ms as nat)
            + " ms"@,
    }
}

impl SandboxError {
    /// The error message.
    pub fn to_string(&self) -> (r: String)
        ensures
            r@ == sandbox_error_text(*self),
    {
        match self {
            SandboxError::Denied { operation, reason, target } => match target {
                Some(t) => {
                    let head = concat3(operation_str(*operation), " denied for ", t.as_str());
                    concat3(head.as_str(), ": ", reason_str(*reason))
                },
                None => concat3(operation_str(*operation), " denied: ", reason_str(*reason)),
            },
            SandboxError::Io(m) => m.clone(),
            SandboxError::PathCanonicalizeFailed { path, message } => {
                let head = concat3("failed to canonicalize ", path.as_str(), ": ");
                concat2(head.as_str(), message.as_str())
            },
            SandboxError::TimeoutExceeded { timeout_ms } => concat3(
                "sandboxed command timed out after ",
                u64_to_decimal(*timeout_ms).as_str(),
                " ms",
            ),
        }
    }
}

pub type SandboxResult<T> = Result<T, SandboxError>;

// ---------------------------------------------------------------------------
// Paths.
// ---------------------------------------------------------------------------

pub open spec fn is_absolute(s: Seq<char>) -> bool {
    s.len() > 0 && s[0] == '/'
}

/// Whether some component of the path is `..`.
pub open spec fn has_parent_component(s: Seq<char>) -> bool {
    exists|i: int| #![trigger s[i]]
        0 <= i && i + 2 <= s.len() && s[i] == '.' && s[i + 1] == '.' && (i == 0 || s[i - 1] == '/') && (i + 2
            == s.len() || s[i + 2] == '/')
}

/// Whether the path begins with a `.` component.
pub open spec fn starts_with_current_dir(s: Seq<char>) -> bool {
    s.len() >= 1 && s[0] == '.' && (s.len() == 1 || s[1] == '/')
}

/// A path that may not name a location under a sandbox root: absolute, or
/// with a `.` or `..` component.
pub open spec fn unsafe_relative(s: Seq<char>) -> bool {
    is_absolute(s) || starts_with_current_dir(s) || has_parent_component(s)
}

/// A write target that is not an absolute path made of plain components.
pub open spec fn unsafe_write_target(s: Seq<char>) -> bool {
    !is_absolute(s) || has_parent_component(s)
}

fn has_parent_component_exec(s: &str) -> (r: bool)
    ensures
        r == has_parent_component(s@),
{
    let c = chars_of(s);
    let n = c.len();
    let mut i: usize = 0;
    while n >= 2 && i <= n - 2
        invariant
            c@ == s@,
            i <= n,
            n == c@.len(),
            forall|j: int| #![trigger s@[j]] 0 <= j < i ==> !(j + 2 <= s@.len() && s@[j] == '.' && s@[j + 1] == '.' && (
                j == 0 || s@[j - 1] == '/') && (j + 2 == s@.len() || s@[j + 2] == '/')),
        decreases n - i,
    {
        if c[i] == '.' && c[i + 1] == '.' && (i == 0 || c[i - 1] == '/') && (i + 2 == n || c[i + 2] == '/') {
            return true;
        }
        i = i + 1;
    }
    false
}

/// Whether a relative path may not be joined under a sandbox root.
pub fn is_unsafe_relative(s: &str) -> (r: bool)
    ensures
        r == unsafe_relative(s@),
{
    let c = chars_of(s);
    let absolute = c.len() > 0 && c[0] == '/';
    let current = c.len() >= 1 && c[0] == '.' && (c.len() == 1 || c[1] == '/');
    absolute || current || has_parent_component_exec(s)
}

/// Whether a write target is not an absolute path of plain components.
pub fn is_unsafe_write_target(s: &str) -> (r: bool)
    ensures
        r == unsafe_write_target(s@),
{
    let c = chars_of(s);
    let absolute = c.len() > 0 && c[0] == '/';
    !absolute || has_parent_component_exec(s)
}

/// `root` joined with a relative path.
pub open spec fn join_path(root: Seq<char>, rel: Seq<char>) -> Seq<char> {
    if root.len() > 0 && root.last() == '/' {
        root + rel
    } else {
        root + "/"@ + rel
    }
}

/// Joins a relative path under `root`; an unsafe relative path is denied.
pub fn join_sandbox_relative(root: &str, relative_path: &str) -> (r: SandboxResult<String>)
    ensures
        unsafe_relative(relative_path@) ==> r == Err::<String, SandboxError>(SandboxError::Denied {
            operation: SandboxOperation::FileWrite,
            reason: SandboxDenyReason::UnsafeRelativePath,
            target: Some(r->Err_0->Denied_target->0),
        }) && r->Err_0->Denied_target->0@ == relative_path@,
        !unsafe_relative(relative_path@) ==> (r matches Ok(p) && p@ == join_path(root@, relative_path@)),
{
    if is_unsafe_relative(relative_path) {
        return Err(SandboxError::Denied {
            operation: SandboxOperation::FileWrite,
            reason: SandboxDenyReason::UnsafeRelativePath,
            target: Some(owned(relative_path)),
        });
    }
    let c = chars_of(root);
    if c.len() > 0 && c[c.len() - 1] == '/' {
        Ok(concat2(root, relative_path))
    } else {
        Ok(concat3(root, "/", relative_path))
    }
}

// ---------------------------------------------------------------------------
// Policies.
// ---------------------------------------------------------------------------

/// What a sandboxed process may read and write. Roots are canonical paths.
#[derive(Debug, Clone, PartialEq, Eq)]
pub struct SandboxPolicy {
    pub profile: SandboxProfile,
    pub read_roots: Vec<String>,
    pub write_roots: Vec<String>,
    broker_write_roots: Vec<String>,
    pub network_allowed: bool,
}

pub open spec fn denied_error(operation: SandboxOperation, reason: SandboxDenyReason, target: Seq<char>, e: SandboxError) -> bool {
    e matches SandboxError::Denied { operation: o, reason: r, target: Some(t) } && o == operation && r == reason && t@
        == target
}

impl SandboxPolicy {
    pub closed spec fn broker_roots(&self) -> Seq<String> {
        self.broker_write_roots@
    }

    pub closed spec fn kind(&self) -> SandboxProfile {
        self.profile
    }

    pub closed spec fn reads(&self) -> Seq<String> {
        self.read_roots@
    }

    pub closed spec fn writes(&self) -> Seq<String> {
        self.write_roots@
    }

    pub closed spec fn networked(&self) -> bool {
        self.network_allowed
    }

    pub fn profile(&self) -> (r: SandboxProfile)
        ensures
            r == self.kind(),
    {
        self.profile
    }

    pub fn network_allowed(&self) -> (r: bool)
        ensures
            r == self.networked(),
    {
        self.network_allowed
    }

    /// Reads under the workspace root; no writes. `workspace_root` is canonical.
    pub fn read_only(workspace_root: String) -> (r: SandboxResult<Self>)
        ensures
            r matches Ok(p) && p.kind() == SandboxProfile::ReadOnly && p.reads() == seq![workspace_root]
                && p.writes().len() == 0 && p.broker_roots().len() == 0 && !p.networked(),
    {
        let mut read_roots: Vec<String> = Vec::new();
        read_roots.push(workspace_root);
        Ok(SandboxPolicy {
            profile: SandboxProfile::ReadOnly,
            read_roots,
            write_roots: Vec::new(),
            broker_write_roots: Vec::new(),
            network_allowed: false,
        })
    }

    /// Reads and writes under the workspace root. `workspace_root` is canonical.
    pub fn workspace_write(workspace_root: String) -> (r: SandboxResult<Self>)
        ensures
            r matches Ok(p) && p.kind() == SandboxProfile::WorkspaceWrite && p.reads().len() == 1
                && p.reads()[0] == workspace_root && p.writes().len() == 1 && p.writes()[0]
                == workspace_root && p.broker_roots().len() == 0 && !p.networked(),
    {
        let mut read_roots: Vec<String> = Vec::new();
        read_roots.push(workspace_root.clone());
        let mut write_roots: Vec<String> = Vec::new();
        write_roots.push(workspace_root);
        Ok(SandboxPolicy {
            profile: SandboxProfile::WorkspaceWrite,
            read_roots,
            write_roots,
            broker_write_roots: Vec::new(),
            network_allowed: false,
        })
    }

    /// Source ingest: reads the input blob only, writes the isolated temp
    /// directory, and only the broker writes the raw store. The arguments are
    /// the canonical forms of the request's input blob, temp directory and
    /// raw store, as the caller resolved them; the first failure is returned.
    pub fn source_ingest(
        input_blob: SandboxResult<String>,
        isolated_temp_dir: SandboxResult<String>,
        raw_cas_dir: SandboxResult<String>,
    ) -> (r: SandboxResult<Self>)
        ensures
            input_blob matches Err(e) ==> r == Err::<Self, SandboxError>(e),
            input_blob is Ok ==> (isolated_temp_dir matches Err(e) ==> r == Err::<Self, SandboxError>(e)),
            input_blob is Ok && isolated_temp_dir is Ok ==> (raw_cas_dir matches Err(e) ==> r == Err::<Self, SandboxError>(e)),
            input_blob is Ok && isolated_temp_dir is Ok && raw_cas_dir is Ok ==> (r matches Ok(p) && p.kind()
                == SandboxProfile::SourceIngest && p.reads() == seq![input_blob->Ok_0] && p.writes() == seq![
                isolated_temp_dir->Ok_0] && p.broker_roots() == seq![raw_cas_dir->Ok_0] && !p.networked()),
    {
        let input = match input_blob {
            Ok(p) => p,
            Err(e) => {
                return Err(e);
            },
        };
        let temp = match isolated_temp_dir {
            Ok(p) => p,
            Err(e) => {
                return Err(e);
            },
        };
        let raw = match raw_cas_dir {
            Ok(p) => p,
            Err(e) => {
                return Err(e);
            },
        };
        let mut read_roots: Vec<String> = Vec::new();
        read_roots.push(input);
        let mut write_roots: Vec<String> = Vec::new();
        write_roots.push(temp);
        let mut broker_write_roots: Vec<String> = Vec::new();
        broker_write_roots.push(raw);
        assert(read_roots@ =~= seq![input_blob->Ok_0]);
        assert(write_roots@ =~= seq![isolated_temp_dir->Ok_0]);
        assert(broker_write_roots@ =~= seq![raw_cas_dir->Ok_0]);
        Ok(SandboxPolicy {
            profile: SandboxProfile::SourceIngest,
            read_roots,
            write_roots,
            broker_write_roots,
            network_allowed: false,
        })
    }

    /// Whether a read of `target`, whose canonical form is `canonical`, is
    /// permitted: it must lie under a read root. The canonical path is returned.
    pub fn permits_read(&self, target: &str, canonical: SandboxResult<String>) -> (r: SandboxResult<String>)
        ensures
            canonical matches Err(e) ==> r == Err::<String, SandboxError>(e),
            canonical matches Ok(c) ==> if contained_in_any(self.reads(), c@) {
                r == Ok::<String, SandboxError>(c)
            } else {
                r is Err && denied_error(SandboxOperation::FileRead, SandboxDenyReason::ReadOutsideAllowedRoots, target@, r->Err_0)
            },
    {
        let c = match canonical {
            Ok(c) => c,
            Err(e) => {
                return Err(e);
            },
        };
        if contained_in_any_exec(&self.read_roots, c.as_str()) {
            Ok(c)
        } else {
            Err(SandboxError::Denied {
                operation: SandboxOperation::FileRead,
                reason: SandboxDenyReason::ReadOutsideAllowedRoots,
                target: Some(owned(target)),
            })
        }
    }

    fn permits_write_under(&self, roots: &Vec<String>, target: &str, canonical: SandboxResult<String>) -> (r: SandboxResult<String>)
        ensures
            unsafe_write_target(target@) ==> r is Err && denied_error(SandboxOperation::FileWrite, SandboxDenyReason::UnsafeRelativePath, target@, r->Err_0),
            !unsafe_write_target(target@) ==> match canonical {
                Err(e) => r == Err::<String, SandboxError>(e),
                Ok(c) => if contained_in_any(roots@, c@) {
                    r == Ok::<String, SandboxError>(c)
                } else {
                    r is Err && denied_error(SandboxOperation::FileWrite, SandboxDenyReason::WriteOutsideAllowedRoots, target@, r->Err_0)
                },
            },
    {
        if is_unsafe_write_target(target) {
            return Err(SandboxError::Denied {
                operation: SandboxOperation::FileWrite,
                reason: SandboxDenyReason::UnsafeRelativePath,
                target: Some(owned(target)),
            });
        }
        let c = match canonical {
            Ok(c) => c,
            Err(e) => {
                return Err(e);
            },
        };
        if contained_in_any_exec(roots, c.as_str()) {
            Ok(c)
        } else {
            Err(SandboxError::Denied {
                operation: SandboxOperation::FileWrite,
                reason: SandboxDenyReason::WriteOutsideAllowedRoots,
                target: Some(owned(target)),
            })
        }
    }

    /// Whether a write of `target`, whose canonical form is `canonical`, is
    /// permitted: the target must be an absolute path of plain components
    /// (checked first) and lie under a write root.
    pub fn permits_write(&self, target: &str, canonical: SandboxResult<String>) -> (r: SandboxResult<String>)
        ensures
            unsafe_write_target(target@) ==> r is Err && denied_error(SandboxOperation::FileWrite, SandboxDenyReason::UnsafeRelativePath, target@, r->Err_0),
            !unsafe_write_target(target@) ==> match canonical {
                Err(e) => r == Err::<String, SandboxError>(e),
                Ok(c) => if contained_in_any(self.writes(), c@) {
                    r == Ok::<String, SandboxError>(c)
                } else {
                    r is Err && denied_error(SandboxOperation::FileWrite, SandboxDenyReason::WriteOutsideAllowedRoots, target@, r->Err_0)
                },
            },
    {
        self.permits_write_under(&self.write_roots, target, canonical)
    }

    /// As `permits_write`, for the roots only the broker writes.
    pub fn permits_broker_write(&self, target: &str, canonical: SandboxResult<String>) -> (r: SandboxResult<String>)
        ensures
            unsafe_write_target(target@) ==> r is Err && denied_error(SandboxOperation::FileWrite, SandboxDenyReason::UnsafeRelativePath, target@, r->Err_0),
            !unsafe_write_target(target@) ==> match canonical {
                Err(e) => r == Err::<String, SandboxError>(e),
                Ok(c) => if contained_in_any(self.broker_roots(), c@) {
                    r == Ok::<String, SandboxError>(c)
                } else {
                    r is Err && denied_error(SandboxOperation::FileWrite, SandboxDenyReason::WriteOutsideAllowedRoots, target@, r->Err_0)
                },
            },
    {
        self.permits_write_under(&self.broker_write_roots, target, canonical)
    }
}

// ---------------------------------------------------------------------------
// Seatbelt profiles.
// ---------------------------------------------------------------------------

/// A path as a seatbelt string: backslashes and double quotes escaped.
pub open spec fn escape_sbpl(s: Seq<char>) -> Seq<char>
    decreases s.len(),
{
    if s.len() == 0 {
        Seq::<char>::empty()
    } else {
        escape_sbpl(s.drop_last()) + if s.last() == '\\' {
            seq!['\\', '\\']
        } else if s.last() == '"' {
            seq!['\\', '"']
        } else {
            seq![s.last()]
        }
    }
}

pub fn escape_sbpl_path(path: &str) -> (r: String)
    ensures
        r@ == escape_sbpl(path@),
{
    let c = chars_of(path);
    let mut out = String::new();
    let mut i: usize = 0;
    while i < c.len()
        invariant
            c@ == path@,
            i <= c@.len(),
            out@ == escape_sbpl(path@.take(i as int)),
        decreases c@.len() - i,
    {
        assert(path@.take(i + 1).drop_last() =~= path@.take(i as int));
        if c[i] == '\\' {
            push_char(&mut out, '\\');
            push_char(&mut out, '\\');
        } else if c[i] == '"' {
            push_char(&mut out, '\\');
            push_char(&mut out, '"');
        } else {
            push_char(&mut out, c[i]);
        }
        assert(out@ =~= escape_sbpl(path@.take(i + 1)));
        i = i + 1;
    }
    assert(path@.take(i as int) =~= path@);
    out
}

/// The seatbelt filter of a path: `literal` for a file, `subpath` otherwise.
pub open spec fn sbpl_filter(path: Seq<char>, is_file: bool) -> Seq<char> {
    "("@ + (if is_file { "literal"@ } else { "subpath"@ }) + " \""@ + escape_sbpl(path) + "\")"@
}

pub fn sbpl_path_filter(path: &str, is_file: bool) -> (r: String)
    ensures
        r@ == sbpl_filter(path@, is_file),
{
    let kind = if is_file { "literal" } else { "subpath" };
    let head = concat3("(", kind, " \"");
    let mid = concat2(head.as_str(), escape_sbpl_path(path).as_str());
    concat2(mid.as_str(), "\")")
}

pub open spec fn seq_has_text(s: Seq<String>, t: Seq<char>) -> bool {
    exists|i: int| 0 <= i < s.len() && (#[trigger] s[i])@ == t
}

/// The rule lines of a policy's roots: one per root, in order.
pub open spec fn root_lines(verb: Seq<char>, roots: Seq<String>, file_roots: Seq<String>) -> Seq<Seq<char>>
    decreases roots.len(),
{
    if roots.len() == 0 {
        Seq::<Seq<char>>::empty()
    } else {
        root_lines(verb, roots.drop_last(), file_roots).push(
            "(allow "@ + verb + " "@ + sbpl_filter(roots.last()@, seq_has_text(file_roots, roots.last()@)) + ")"@,
        )
    }
}

/// The lines of a policy's seatbelt profile.
pub open spec fn profile_lines(read_roots: Seq<String>, write_roots: Seq<String>, file_roots: Seq<String>) -> Seq<Seq<char>> {
    seq![
        "(version 1)"@,
        "(deny default)"@,
        "(allow process*)"@,
        "(allow file-read-metadata)"@,
        "(deny network*)"@,
    ] + root_lines("file-read*"@, read_roots, file_roots) + root_lines("file-write*"@, write_roots, file_roots)
}

fn push_root_lines(lines: &mut Vec<String>, verb: &str, roots: &Vec<String>, file_roots: &Vec<String>)
    ensures
        crate::text::views(final(lines)@) == crate::text::views(old(lines)@) + root_lines(verb@, roots@, file_roots@),
{
    let ghost start = crate::text::views(lines@);
    let mut i: usize = 0;
    while i < roots.len()
        invariant
            i <= roots@.len(),
            crate::text::views(lines@) == start + root_lines(verb@, roots@.take(i as int), file_roots@),
        decreases roots@.len() - i,
    {
        assert(roots@.take(i + 1).drop_last() =~= roots@.take(i as int));
        let root = roots[i].as_str();
        let is_file = crate::policy::grant::contains_text_pub(file_roots, root);
        let head = concat3("(allow ", verb, " ");
        let filter = sbpl_path_filter(root, is_file);
        let line = concat3(head.as_str(), filter.as_str(), ")");
        let ghost before = lines@;
        lines.push(line);
        assert(crate::text::views(lines@) =~= crate::text::views(before).push(line@));
        assert(crate::text::views(lines@) =~= start + root_lines(verb@, roots@.take(i + 1), file_roots@));
        i = i + 1;
    }
    assert(roots@.take(i as int) =~= roots@);
}

/// The seatbelt profile of a policy; `file_roots` are the roots that are
/// files (the others are directories).
pub fn build_seatbelt_profile(policy: &SandboxPolicy, file_roots: &Vec<String>) -> (r: String)
    ensures
        r@ == crate::text::join_lines(profile_lines(policy.reads(), policy.writes(), file_roots@)),
{
    let mut lines: Vec<String> = Vec::new();
    lines.push(owned("(version 1)"));
    lines.push(owned("(deny default)"));
    lines.push(owned("(allow process*)"));
    lines.push(owned("(allow file-read-metadata)"));
    lines.push(owned("(deny network*)"));
    assert(crate::text::views(lines@) =~= seq![
        "(version 1)"@,
        "(deny default)"@,
        "(allow process*)"@,
        "(allow file-read-metadata)"@,
        "(deny network*)"@,
    ]);
    push_root_lines(&mut lines, "file-read*", &policy.read_roots, file_roots);
    push_root_lines(&mut lines, "file-write*", &policy.write_roots, file_roots);
    crate::text::join_with_newlines(&lines)
}

#[derive(Debug, Clone, PartialEq, Eq)]
pub struct SandboxCommandPlan {
    pub backend: SandboxBackendKind,
    pub executable: String,
    pub args: Vec<String>,
    pub profile_source: String,
}

#[derive(Debug, Default, Clone, Copy, PartialEq, Eq)]
pub struct MacosSeatbeltBackend;

impl MacosSeatbeltBackend {
    /// Runs `command` under `sandbox-exec` with the policy's profile.
    pub fn command_plan(policy: &SandboxPolicy, command: &[String], file_roots: &Vec<String>) -> (r: SandboxCommandPlan)
        ensures
            r.backend == SandboxBackendKind::MacosSeatbelt,
            r.executable@ == MACOS_SEATBELT_EXECUTABLE@,
            r.profile_source@ == crate::text::join_lines(profile_lines(policy.reads(), policy.writes(), file_roots@)),
            r.args@.len() == command@.len() + 2,
            r.args@[0]@ == "-p"@,
            r.args@[1] == r.profile_source,
            r.args@.skip(2) == command@,
    {
        let profile_source = build_seatbelt_profile(policy, file_roots);
        let mut args: Vec<String> = Vec::new();
        args.push(owned("-p"));
        args.push(profile_source.clone());
        let mut i: usize = 0;
        while i < command.len()
            invariant
                i <= command@.len(),
                args@.len() == i + 2,
                args@[0]@ == "-p"@,
                args@[1] == profile_source,
                args@.skip(2) == command@.take(i as int),
            decreases command@.len() - i,
        {
            args.push(command[i].clone());
            assert(args@.skip(2) =~= command@.take(i + 1));
            i = i + 1;
        }
        assert(command@.take(i as int) =~= command@);
        SandboxCommandPlan {
            backend: SandboxBackendKind::MacosSeatbelt,
            executable: owned(MACOS_SEATBELT_EXECUTABLE),
            args,
            profile_source,
        }
    }
}

} // verus!
