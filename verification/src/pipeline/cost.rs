//! Cost estimator: estimate token and compute cost for a compiled pipeline.

use vstd::prelude::*;

use crate::pipe::frame::{Cardinality, FrameType, TypedFrame};
use crate::pipeline::compiler::{CompileResult, CompiledStep};
use crate::text::{concat2, concat3, decimal, str_eq, u64_to_decimal};

verus! {

/// Estimated cost for a compiled pipeline.
#[derive(Debug, Clone, PartialEq, Eq)]
pub struct CostEstimate {
    pub graph_id: String,
    /// Estimated CPU time in milliseconds.
    pub estimated_cpu_ms: u64,
    /// Estimated memory in megabytes.
    pub estimated_memory_mb: u64,
    /// Estimated token count (LLM steps only).
    pub estimated_tokens: u64,
    /// Confidence level: low / medium / high.
    pub confidence: CostConfidence,
}

#[derive(Debug, Clone, Copy, PartialEq, Eq, Structural)]
pub enum CostConfidence {
    Low,
    Medium,
    High,
}

/// Actual execution cost used for error-checking estimates.
#[derive(Debug, Clone, PartialEq, Eq)]
pub struct ActualCost {
    pub cpu_ms: u64,
    pub memory_mb: u64,
    pub tokens: u64,
}

/// Whether an estimate is within 0.5x to 2x of the actual value; an actual
/// of 0 only accepts an estimate of 0.
pub open spec fn within_band(est: u64, act: u64) -> bool {
    if act == 0 {
        est == 0
    } else {
        act <= 2 * est && est <= 2 * act
    }
}

/// The message for one metric outside the band.
pub open spec fn band_message(label: Seq<char>, est: u64, act: u64) -> Seq<char> {
    if act == 0 {
        label + ": actual is 0 but estimate is "@ + decimal(est as nat)
    } else {
        label + ": estimate "@ + decimal(est as nat) + " vs actual "@ + decimal(act as nat)
            + " (ratio outside 0.5x~2x)"@
    }
}

fn check_metric(label: &str, est: u64, act: u64) -> (r: Result<(), String>)
    ensures
        r is Ok <==> within_band(est, act),
        r matches Err(m) ==> m@ == band_message(label@, est, act),
{
    if act == 0 {
        if est == 0 {
            return Ok(());
        }
        let head = concat2(label, ": actual is 0 but estimate is ");
        let n = u64_to_decimal(est);
        return Err(concat2(head.as_str(), n.as_str()));
    }
    let e = est as u128;
    let a = act as u128;
    if a <= 2 * e && e <= 2 * a {
        return Ok(());
    }
    let head = concat3(label, ": estimate ", u64_to_decimal(est).as_str());
    let mid = concat3(head.as_str(), " vs actual ", u64_to_decimal(act).as_str());
    Err(concat2(mid.as_str(), " (ratio outside 0.5x~2x)"))
}

impl CostEstimate {
    /// Checks that each metric (cpu, memory, tokens, in that order) is within
    /// 0.5x to 2x of the actual value; reports the first one that is not.
    pub fn check_error(&self, actual: &ActualCost) -> (r: Result<(), String>)
        ensures
            r is Ok <==> (within_band(self.estimated_cpu_ms, actual.cpu_ms) && within_band(
                self.estimated_memory_mb, actual.memory_mb) && within_band(self.estimated_tokens,
                actual.tokens)),
            r matches Err(m) ==> {
                if !within_band(self.estimated_cpu_ms, actual.cpu_ms) {
                    m@ == band_message("cpu_ms"@, self.estimated_cpu_ms, actual.cpu_ms)
                } else if !within_band(self.estimated_memory_mb, actual.memory_mb) {
                    m@ == band_message("memory_mb"@, self.estimated_memory_mb, actual.memory_mb)
                } else {
                    m@ == band_message("tokens"@, self.estimated_tokens, actual.tokens)
                }
            },
    {
        check_metric("cpu_ms", self.estimated_cpu_ms, actual.cpu_ms)?;
        check_metric("memory_mb", self.estimated_memory_mb, actual.memory_mb)?;
        check_metric("tokens", self.estimated_tokens, actual.tokens)?;
        Ok(())
    }
}

/// Estimator for pipeline execution cost: the manifest quota of each step (or
/// a default), plus a token model for LLM-heavy commands.
#[derive(Debug, Clone, Copy, Default)]
pub struct CostEstimator;

pub open spec fn default_cpu_ms() -> u64 { 100 }

pub open spec fn default_memory_mb() -> u64 { 64 }

pub open spec fn step_cpu(s: CompiledStep) -> nat {
    match s.resource_quota {
        Some(q) => q.cpu_ms as nat,
        None => default_cpu_ms() as nat,
    }
}

pub open spec fn step_memory(s: CompiledStep) -> nat {
    match s.resource_quota {
        Some(q) => q.memory_mb as nat,
        None => default_memory_mb() as nat,
    }
}

pub open spec fn is_llm_command(id: Seq<char>) -> bool {
    id == "adr.summarize"@ || id == "wiki.patch.propose"@
}

/// Heuristic input tokens by frame type and cardinality.
pub open spec fn input_tokens(f: TypedFrame) -> nat {
    match f {
        (FrameType::ParagraphFrame, Cardinality::One) => 256,
        (FrameType::ParagraphFrame, Cardinality::Many) => 1024,
        (FrameType::CitedParagraph, Cardinality::One) => 512,
        (FrameType::CitedParagraph, Cardinality::Many) => 2048,
        (FrameType::TextAnswer, Cardinality::One) => 128,
        (FrameType::TextAnswer, Cardinality::Many) => 512,
        (FrameType::PatchProposalArtifact, Cardinality::One) => 512,
        (FrameType::PatchProposalArtifact, Cardinality::Many) => 2048,
        (FrameType::JsonValue, Cardinality::One) => 64,
        (FrameType::JsonValue, Cardinality::Many) => 256,
    }
}

/// Heuristic output tokens by output frame type.
pub open spec fn output_tokens(f: TypedFrame) -> nat {
    match f.0 {
        FrameType::TextAnswer => 512,
        FrameType::PatchProposalArtifact => 4096,
        _ => 0,
    }
}

pub open spec fn step_tokens(s: CompiledStep) -> nat {
    if is_llm_command(s.command_id@) {
        input_tokens(s.input_type) + output_tokens(s.output_type)
    } else {
        0
    }
}

pub open spec fn total_cpu(steps: Seq<CompiledStep>) -> nat
    decreases steps.len(),
{
    if steps.len() == 0 { 0 } else { total_cpu(steps.drop_last()) + step_cpu(steps.last()) }
}

pub open spec fn total_memory(steps: Seq<CompiledStep>) -> nat
    decreases steps.len(),
{
    if steps.len() == 0 { 0 } else { total_memory(steps.drop_last()) + step_memory(steps.last()) }
}

pub open spec fn total_tokens(steps: Seq<CompiledStep>) -> nat
    decreases steps.len(),
{
    if steps.len() == 0 { 0 } else { total_tokens(steps.drop_last()) + step_tokens(steps.last()) }
}

pub open spec fn confidence_for(n: nat) -> CostConfidence {
    if n <= 2 {
        CostConfidence::High
    } else if n <= 5 {
        CostConfidence::Medium
    } else {
        CostConfidence::Low
    }
}

proof fn lemma_totals_monotone(steps: Seq<CompiledStep>, i: int)
    requires
        0 <= i <= steps.len(),
    ensures
        total_cpu(steps.take(i)) <= total_cpu(steps),
        total_memory(steps.take(i)) <= total_memory(steps),
        total_tokens(steps.take(i)) <= total_tokens(steps),
    decreases steps.len() - i,
{
    if i < steps.len() {
        assert(steps.drop_last().take(i) =~= steps.take(i));
        lemma_totals_monotone(steps.drop_last(), i);
    } else {
        assert(steps.take(i) =~= steps);
    }
}

fn is_llm_command_exec(id: &str) -> (r: bool)
    ensures
        r == is_llm_command(id@),
{
    str_eq(id, "adr.summarize") || str_eq(id, "wiki.patch.propose")
}

fn estimate_input_tokens(f: TypedFrame) -> (r: u64)
    ensures
        r == input_tokens(f),
{
    match f {
        (FrameType::ParagraphFrame, Cardinality::One) => 256,
        (FrameType::ParagraphFrame, Cardinality::Many) => 1024,
        (FrameType::CitedParagraph, Cardinality::One) => 512,
        (FrameType::CitedParagraph, Cardinality::Many) => 2048,
        (FrameType::TextAnswer, Cardinality::One) => 128,
        (FrameType::TextAnswer, Cardinality::Many) => 512,
        (FrameType::PatchProposalArtifact, Cardinality::One) => 512,
        (FrameType::PatchProposalArtifact, Cardinality::Many) => 2048,
        (FrameType::JsonValue, Cardinality::One) => 64,
        (FrameType::JsonValue, Cardinality::Many) => 256,
    }
}

fn estimate_output_tokens(f: TypedFrame) -> (r: u64)
    ensures
        r == output_tokens(f),
{
    match f.0 {
        FrameType::TextAnswer => 512,
        FrameType::PatchProposalArtifact => 4096,
        _ => 0,
    }
}

impl CostEstimator {
    pub fn new() -> (r: Self) {
        CostEstimator
    }

    /// Sums the per-step cpu, memory and token estimates; the confidence falls
    /// with the number of steps (at most 2: high, at most 5: medium, else low).
    pub fn estimate(&self, result: &CompileResult) -> (r: CostEstimate)
        requires
            total_cpu(result.linear_steps@) <= u64::MAX,
            total_memory(result.linear_steps@) <= u64::MAX,
            total_tokens(result.linear_steps@) <= u64::MAX,
        ensures
            r.graph_id == result.graph_id,
            r.estimated_cpu_ms == total_cpu(result.linear_steps@),
            r.estimated_memory_mb == total_memory(result.linear_steps@),
            r.estimated_tokens == total_tokens(result.linear_steps@),
            r.confidence == confidence_for(result.linear_steps@.len()),
    {
        let steps = &result.linear_steps;
        let mut cpu: u64 = 0;
        let mut mem: u64 = 0;
        let mut tokens: u64 = 0;
        let mut i: usize = 0;
        while i < steps.len()
            invariant
                i <= steps@.len(),
                steps@ == result.linear_steps@,
                total_cpu(steps@) <= u64::MAX,
                total_memory(steps@) <= u64::MAX,
                total_tokens(steps@) <= u64::MAX,
                cpu == total_cpu(steps@.take(i as int)),
                mem == total_memory(steps@.take(i as int)),
                tokens == total_tokens(steps@.take(i as int)),
            decreases steps@.len() - i,
        {
            proof {
                assert(steps@.take(i + 1).drop_last() =~= steps@.take(i as int));
                lemma_totals_monotone(steps@, i + 1);
            }
            let step = &steps[i];
            let c = match step.resource_quota {
                Some(q) => q.cpu_ms,
                None => 100,
            };
            let m = match step.resource_quota {
                Some(q) => q.memory_mb,
                None => 64,
            };
            cpu = cpu + c;
            mem = mem + m;
            if is_llm_command_exec(step.command_id.as_str()) {
                let t = estimate_input_tokens(step.input_type) + estimate_output_tokens(step.output_type);
                tokens = tokens + t;
            }
            i = i + 1;
        }
        assert(steps@.take(i as int) =~= steps@);
        let n = steps.len();
        let confidence = if n <= 2 {
            CostConfidence::High
        } else if n <= 5 {
            CostConfidence::Medium
        } else {
            CostConfidence::Low
        };
        CostEstimate {
            graph_id: result.graph_id.clone(),
            estimated_cpu_ms: cpu,
            estimated_memory_mb: mem,
            estimated_tokens: tokens,
            confidence,
        }
    }
}

/// The confidence of an estimate falls as the pipeline grows: high for at
/// most two steps, medium for three to five, low for more.
pub proof fn law_confidence_by_size(n: nat)
    ensures
        n <= 2 ==> confidence_for(n) == CostConfidence::High,
        3 <= n <= 5 ==> confidence_for(n) == CostConfidence::Medium,
        n > 5 ==> confidence_for(n) == CostConfidence::Low,
        forall|m: nat| m > 5 ==> #[trigger] confidence_for(m) == CostConfidence::Low,
{
}

/// A pipeline's estimated cpu, memory and tokens are the sums of its parts':
/// the totals of two step lists joined are the totals of each added.
pub proof fn law_totals_add_up(a: Seq<CompiledStep>, b: Seq<CompiledStep>)
    ensures
        total_cpu(a + b) == total_cpu(a) + total_cpu(b),
        total_memory(a + b) == total_memory(a) + total_memory(b),
        total_tokens(a + b) == total_tokens(a) + total_tokens(b),
    decreases b.len(),
{
    if b.len() == 0 {
        assert(a + b =~= a);
    } else {
        assert((a + b).drop_last() =~= a + b.drop_last());
        assert((a + b).last() == b.last());
        law_totals_add_up(a, b.drop_last());
    }
}

/// More steps never raise the confidence of an estimate.
pub proof fn law_confidence_falls_with_size(n: nat, m: nat)
    requires
        n <= m,
    ensures
        confidence_for(n) == CostConfidence::Low ==> confidence_for(m) == CostConfidence::Low,
        confidence_for(m) == CostConfidence::High ==> confidence_for(n) == CostConfidence::High,
{
}

} // verus!
