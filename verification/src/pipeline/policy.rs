//! Policy estimator: the aggregate capability requirements of a compiled pipeline.

use vstd::prelude::*;

use crate::pipe::registry::SideEffectLevel;
use crate::pipeline::compiler::CompileResult;
use crate::text::{concat2, str_eq};

verus! {

/// Estimated policy requirements for a compiled pipeline.
#[derive(Debug, Clone, PartialEq, Eq)]
pub struct PolicyEstimate {
    pub graph_id: String,
    /// Command ids used in the pipeline.
    pub required_commands: Vec<String>,
    /// Maximum side-effect level across all steps.
    pub max_side_effect: SideEffectLevel,
    /// Whether the pipeline requires approval before execution.
    pub requires_approval: bool,
    /// Capability grants needed, one per command.
    pub required_capabilities: Vec<String>,
    /// Required capabilities that the actor does not hold.
    pub missing_capabilities: Vec<String>,
}

/// Estimator for pipeline policy requirements.
#[derive(Debug, Clone, Copy, Default)]
pub struct PolicyEstimator;

/// The capability that running a command needs.
pub open spec fn command_capability(command_id: Seq<char>) -> Seq<char> {
    "pipe.command."@ + command_id
}

pub open spec fn holds(caps: Seq<String>, cap: Seq<char>) -> bool {
    exists|i: int| 0 <= i < caps.len() && (#[trigger] caps[i])@ == cap
}

pub open spec fn missing_from(caps: Seq<String>) -> spec_fn(String) -> bool {
    |c: String| !holds(caps, c@)
}

fn holds_exec(caps: &Vec<String>, cap: &str) -> (r: bool)
    ensures
        r == holds(caps@, cap@),
{
    let mut i: usize = 0;
    while i < caps.len()
        invariant
            i <= caps.len(),
            forall|j: int| 0 <= j < i ==> (#[trigger] caps@[j])@ != cap@,
        decreases caps.len() - i,
    {
        if str_eq(caps[i].as_str(), cap) {
            return true;
        }
        i = i + 1;
    }
    false
}

impl PolicyEstimator {
    pub fn new() -> (r: Self) {
        PolicyEstimator
    }

    /// The commands of `result`, the capability each needs, those the actor
    /// lacks, and whether approval is needed: when a step has side effects
    /// (proposal or more) or a capability is missing.
    pub fn estimate(&self, result: &CompileResult, actor_capabilities: &Vec<String>) -> (r: PolicyEstimate)
        ensures
            r.graph_id == result.graph_id,
            r.required_commands@.len() == result.command_schema_hashes@.len(),
            forall|i: int| 0 <= i < r.required_commands@.len() ==> #[trigger] r.required_commands@[i]
                == result.command_schema_hashes@[i].0,
            r.required_capabilities@.len() == result.command_schema_hashes@.len(),
            forall|i: int| 0 <= i < r.required_capabilities@.len() ==> (#[trigger] r.required_capabilities@[i])@
                == command_capability(result.command_schema_hashes@[i].0@),
            r.missing_capabilities@ == r.required_capabilities@.filter(missing_from(actor_capabilities@)),
            r.max_side_effect == result.max_side_effect,
            r.requires_approval == (result.max_side_effect != SideEffectLevel::NoEffect
                || r.missing_capabilities@.len() > 0),
    {
        let n = result.command_schema_hashes.len();
        let mut required_commands: Vec<String> = Vec::new();
        let mut required_capabilities: Vec<String> = Vec::new();
        let mut missing: Vec<String> = Vec::new();
        let ghost pred = missing_from(actor_capabilities@);
        let mut i: usize = 0;
        while i < n
            invariant
                n == result.command_schema_hashes@.len(),
                i <= n,
                pred == missing_from(actor_capabilities@),
                required_commands@.len() == i,
                required_capabilities@.len() == i,
                forall|j: int| 0 <= j < i ==> #[trigger] required_commands@[j] == result.command_schema_hashes@[j].0,
                forall|j: int| 0 <= j < i ==> (#[trigger] required_capabilities@[j])@
                    == command_capability(result.command_schema_hashes@[j].0@),
                missing@ == required_capabilities@.filter(pred),
            decreases n - i,
        {
            let cmd = &result.command_schema_hashes[i].0;
            let cap = concat2("pipe.command.", cmd.as_str());
            let ghost before = required_capabilities@;
            let is_missing = !holds_exec(actor_capabilities, cap.as_str());
            required_commands.push(cmd.clone());
            required_capabilities.push(cap.clone());
            proof {
                reveal_with_fuel(Seq::<_>::filter, 1);
                assert(required_capabilities@.drop_last() =~= before);
            }
            if is_missing {
                missing.push(cap);
            }
            i = i + 1;
        }
        let has_side_effect = match result.max_side_effect {
            SideEffectLevel::ProposalOnly | SideEffectLevel::SideEffect => true,
            SideEffectLevel::NoEffect => false,
        };
        let requires_approval = has_side_effect || missing.len() > 0;
        PolicyEstimate {
            graph_id: result.graph_id.clone(),
            required_commands,
            max_side_effect: result.max_side_effect,
            requires_approval,
            required_capabilities,
            missing_capabilities: missing,
        }
    }
}

} // verus!
