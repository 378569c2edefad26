//! Built-in command executors: simulated search, citation, summary and patch
//! commands, and the `filter` and `map` commands over JSON frames.

use vstd::prelude::*;

use crate::json::{
    clone_json, entry_views, json_array, json_array_value, json_as_object, json_as_str, json_bool, json_bool_value,
    json_entries, json_eq, json_equal, json_get, json_insert, json_member, json_object, json_object_value, json_string,
    json_string_value, json_text, json_text_of, json_with_member, to_json_text,
};
use crate::pipe::ast::ComposedStep;
use crate::pipe::dry_run::{FrameEnvelope, PipelineError};
use crate::pipe::frame::FrameType;
use crate::pipe::run::{CommandExecutor, ExecutionContext};
use crate::text::{concat2, contains_str, has_substring, owned};

verus! {

/// The payload of a simulated frame: its fields, then the simulation marker
/// and the command's name.
pub open spec fn simulated(fields: Seq<(Seq<char>, serde_json::Value)>, command: Seq<char>) -> serde_json::Value {
    json_object_value(fields + seq![("_simulated"@, json_bool_value(true)), ("_command"@, json_string_value(command))])
}

fn simulated_payload(fields: Vec<(String, serde_json::Value)>, command: &str) -> (r: serde_json::Value)
    ensures
        r == simulated(entry_views(fields@), command@),
{
    let mut entries = fields;
    let ghost f = entries@;
    entries.push((owned("_simulated"), json_bool(true)));
    entries.push((owned("_command"), json_string(command)));
    proof { reveal_strlit("_simulated"); reveal_strlit("_command"); }
    assert(entry_views(entries@) =~= entry_views(f) + seq![("_simulated"@, json_bool_value(true)), ("_command"@, json_string_value(command@))]);
    json_object(entries)
}

fn text_field(key: &str, value: &str) -> (r: (String, serde_json::Value))
    ensures
        r.0@ == key@,
        r.1 == json_string_value(value@),
{
    (owned(key), json_string(value))
}

/// A simulated frame of a step.
pub open spec fn sim_frame(step: ComposedStep, seq: u64, t: FrameType, payload: serde_json::Value) -> FrameEnvelope {
    FrameEnvelope { seq, step_id: step.step_id, frame_type: t, payload }
}

fn sim(step: &ComposedStep, seq: u64, t: FrameType, a: (String, serde_json::Value), b: (String, serde_json::Value), command: &str) -> (r: FrameEnvelope)
    ensures
        r == sim_frame(*step, seq, t, simulated(seq![(a.0@, a.1), (b.0@, b.1)], command@)),
{
    let ghost fa = (a.0@, a.1);
    let ghost fb = (b.0@, b.1);
    let mut fields: Vec<(String, serde_json::Value)> = Vec::new();
    fields.push(a);
    fields.push(b);
    assert(entry_views(fields@) =~= seq![fa, fb]);
    let payload = simulated_payload(fields, command);
    FrameEnvelope { seq, step_id: step.step_id.clone(), frame_type: t, payload }
}

/// Simulated `wiki.search`.
#[derive(Debug, Clone, Copy, PartialEq, Eq)]
pub struct WikiSearchExecutor;

/// The payload of a simulated paragraph with the given id.
pub open spec fn search_hit(id: Seq<char>) -> serde_json::Value {
    simulated(seq![("paragraph_id"@, json_string_value(id)), ("text"@, json_string_value("simulated paragraph"@))], "wiki.search"@)
}

impl CommandExecutor for WikiSearchExecutor {
    fn execute(&self, step: &ComposedStep, input: Vec<FrameEnvelope>, ctx: &mut ExecutionContext) -> (r: Result<
        Vec<FrameEnvelope>,
        PipelineError,
    >)
        ensures
            r matches Ok(fs) && fs@ == seq![
                sim_frame(*step, 1, FrameType::ParagraphFrame, search_hit("para-1"@)),
                sim_frame(*step, 2, FrameType::ParagraphFrame, search_hit("para-2"@)),
            ],
    {
        let f1 = sim(step, 1, FrameType::ParagraphFrame, text_field("paragraph_id", "para-1"), text_field("text", "simulated paragraph"), "wiki.search");
        let f2 = sim(step, 2, FrameType::ParagraphFrame, text_field("paragraph_id", "para-2"), text_field("text", "simulated paragraph"), "wiki.search");
        let mut out: Vec<FrameEnvelope> = Vec::new();
        out.push(f1);
        out.push(f2);
        Ok(out)
    }
}

/// Simulated `citation.resolve`.
#[derive(Debug, Clone, Copy, PartialEq, Eq)]
pub struct CitationResolveExecutor;

/// The payload of a simulated cited paragraph with the given id.
pub open spec fn cited(id: Seq<char>) -> serde_json::Value {
    simulated(seq![("citation_id"@, json_string_value(id)), ("text"@, json_string_value("simulated cited paragraph"@))], "citation.resolve"@)
}

impl CommandExecutor for CitationResolveExecutor {
    fn execute(&self, step: &ComposedStep, input: Vec<FrameEnvelope>, ctx: &mut ExecutionContext) -> (r: Result<
        Vec<FrameEnvelope>,
        PipelineError,
    >)
        ensures
            r matches Ok(fs) && fs@ == seq![
                sim_frame(*step, 1, FrameType::CitedParagraph, cited("cite-1"@)),
                sim_frame(*step, 2, FrameType::CitedParagraph, cited("cite-2"@)),
            ],
    {
        let f1 = sim(step, 1, FrameType::CitedParagraph, text_field("citation_id", "cite-1"), text_field("text", "simulated cited paragraph"), "citation.resolve");
        let f2 = sim(step, 2, FrameType::CitedParagraph, text_field("citation_id", "cite-2"), text_field("text", "simulated cited paragraph"), "citation.resolve");
        let mut out: Vec<FrameEnvelope> = Vec::new();
        out.push(f1);
        out.push(f2);
        Ok(out)
    }
}

/// Simulated `adr.summarize`.
#[derive(Debug, Clone, Copy, PartialEq, Eq)]
pub struct AdrSummarizeExecutor;

/// The payload of the simulated answer.
pub open spec fn summary_answer() -> serde_json::Value {
    simulated(seq![("text"@, json_string_value("simulated answer"@)), ("citations"@, json_array_value(Seq::empty()))], "adr.summarize"@)
}

impl CommandExecutor for AdrSummarizeExecutor {
    fn execute(&self, step: &ComposedStep, input: Vec<FrameEnvelope>, ctx: &mut ExecutionContext) -> (r: Result<
        Vec<FrameEnvelope>,
        PipelineError,
    >)
        ensures
            r matches Ok(fs) && fs@ == seq![sim_frame(*step, 1, FrameType::TextAnswer, summary_answer())],
    {
        let empty: Vec<serde_json::Value> = Vec::new();
        let citations = (owned("citations"), json_array(empty));
        let f = sim(step, 1, FrameType::TextAnswer, text_field("text", "simulated answer"), citations, "adr.summarize");
        let mut out: Vec<FrameEnvelope> = Vec::new();
        out.push(f);
        proof {
            assert(Seq::<serde_json::Value>::empty() =~= empty@);
        }
        Ok(out)
    }
}

/// Simulated `wiki.patch.propose`.
#[derive(Debug, Clone, Copy, PartialEq, Eq)]
pub struct WikiPatchProposeExecutor;

/// The payload of the simulated proposal for a step.
pub open spec fn proposal(step_id: Seq<char>) -> serde_json::Value {
    simulated(seq![("patch_id"@, json_string_value("patch-"@ + step_id)), ("diff"@, json_string_value("simulated diff"@))], "wiki.patch.propose"@)
}

impl CommandExecutor for WikiPatchProposeExecutor {
    fn execute(&self, step: &ComposedStep, input: Vec<FrameEnvelope>, ctx: &mut ExecutionContext) -> (r: Result<
        Vec<FrameEnvelope>,
        PipelineError,
    >)
        ensures
            r matches Ok(fs) && fs@ == seq![sim_frame(*step, 1, FrameType::PatchProposalArtifact, proposal(step.step_id@))],
    {
        let id = concat2("patch-", step.step_id.as_str());
        let f = sim(step, 1, FrameType::PatchProposalArtifact, text_field("patch_id", id.as_str()), text_field("diff", "simulated diff"), "wiki.patch.propose");
        let mut out: Vec<FrameEnvelope> = Vec::new();
        out.push(f);
        Ok(out)
    }
}

/// Every entry's key is a member of the payload equal to the entry's value.
pub open spec fn entries_match(payload: serde_json::Value, es: Seq<(Seq<char>, serde_json::Value)>) -> bool {
    forall|i: int| 0 <= i < es.len() ==> (json_member(payload, (#[trigger] es[i]).0) matches Some(w) && json_equal(w, es[i].1))
}

/// Whether a frame's payload passes a predicate: a text predicate must occur
/// in the payload's JSON text; an object predicate must match members of an
/// object payload; any other predicate passes everything.
pub open spec fn filter_keeps(pred: serde_json::Value, payload: serde_json::Value) -> bool {
    match json_text_of(pred) {
        Some(s) => has_substring(json_text(payload), s),
        None => match json_entries(pred) {
            Some(es) => json_entries(payload) is Some && entries_match(payload, es),
            None => true,
        },
    }
}

/// A named argument of a step, or the empty object.
pub open spec fn arg_or_empty(step: ComposedStep, name: Seq<char>) -> serde_json::Value {
    match json_member(step.args, name) {
        Some(v) => v,
        None => json_object_value(Seq::empty()),
    }
}

fn arg_or_empty_exec(step: &ComposedStep, name: &str) -> (r: serde_json::Value)
    ensures
        r == arg_or_empty(*step, name@),
{
    match json_get(&step.args, name) {
        Some(v) => v,
        None => {
            let empty: Vec<(String, serde_json::Value)> = Vec::new();
            assert(entry_views(empty@) =~= Seq::<(Seq<char>, serde_json::Value)>::empty());
            json_object(empty)
        },
    }
}

fn matches_entries(payload: &serde_json::Value, es: &Vec<(String, serde_json::Value)>) -> (r: bool)
    ensures
        r == entries_match(*payload, entry_views(es@)),
{
    let ghost ev = entry_views(es@);
    let mut i: usize = 0;
    while i < es.len()
        invariant
            i <= es@.len(),
            ev == entry_views(es@),
            forall|j: int| 0 <= j < i ==> (json_member(*payload, (#[trigger] ev[j]).0) matches Some(w) && json_equal(w, ev[j].1)),
        decreases es@.len() - i,
    {
        assert(ev[i as int] == (es@[i as int].0@, es@[i as int].1));
        match json_get(payload, es[i].0.as_str()) {
            Some(w) => {
                if !json_eq(&w, &es[i].1) {
                    return false;
                }
            },
            None => {
                return false;
            },
        }
        i = i + 1;
    }
    true
}

fn keeps(pred: &serde_json::Value, payload: &serde_json::Value) -> (r: bool)
    ensures
        r == filter_keeps(*pred, *payload),
{
    match json_as_str(pred) {
        Some(s) => {
            let text = to_json_text(payload);
            contains_str(text.as_str(), s.as_str())
        },
        None => match json_as_object(pred) {
            Some(es) => {
                if json_as_object(payload).is_none() {
                    false
                } else {
                    matches_entries(payload, &es)
                }
            },
            None => true,
        },
    }
}

/// `filter`: keeps the frames whose payload passes the step's `predicate`
/// argument (the empty object when there is none).
#[derive(Debug, Clone, Copy, PartialEq, Eq)]
pub struct FilterExecutor;

impl CommandExecutor for FilterExecutor {
    fn execute(&self, step: &ComposedStep, input: Vec<FrameEnvelope>, ctx: &mut ExecutionContext) -> (r: Result<
        Vec<FrameEnvelope>,
        PipelineError,
    >)
        ensures
            r matches Ok(fs) && fs@ == input@.filter(|f: FrameEnvelope| filter_keeps(arg_or_empty(*step, "predicate"@), f.payload)),
    {
        let pred = arg_or_empty_exec(step, "predicate");
        let ghost keep = |f: FrameEnvelope| filter_keeps(pred, f.payload);
        let mut out: Vec<FrameEnvelope> = Vec::new();
        let mut i: usize = 0;
        while i < input.len()
            invariant
                i <= input@.len(),
                keep == (|f: FrameEnvelope| filter_keeps(pred, f.payload)),
                out@ == input@.take(i as int).filter(keep),
            decreases input@.len() - i,
        {
            proof {
                input@.take(i as int).lemma_filter_push(input@[i as int], keep);
                assert(input@.take(i + 1) =~= input@.take(i as int).push(input@[i as int]));
            }
            if keeps(&pred, &input[i].payload) {
                out.push(input[i].clone());
            }
            i = i + 1;
        }
        assert(input@.take(i as int) =~= input@);
        Ok(out)
    }
}

/// The payload with the entries inserted in order.
pub open spec fn with_entries(p: serde_json::Value, es: Seq<(Seq<char>, serde_json::Value)>) -> serde_json::Value
    decreases es.len(),
{
    if es.len() == 0 {
        p
    } else {
        json_with_member(with_entries(p, es.drop_last()), es.last().0, es.last().1)
    }
}

/// An object payload with a transform object's entries inserted; any other
/// payload, or any other transform, leaves it as it is.
pub open spec fn mapped_payload(p: serde_json::Value, transform: serde_json::Value) -> serde_json::Value {
    if json_entries(p) is Some && json_entries(transform) is Some {
        with_entries(p, json_entries(transform)->0)
    } else {
        p
    }
}

/// The frame as `map` gives it for a step.
pub open spec fn mapped_frame(step: ComposedStep, f: FrameEnvelope) -> FrameEnvelope {
    FrameEnvelope {
        seq: f.seq,
        step_id: step.step_id,
        frame_type: step.output_type.0,
        payload: mapped_payload(f.payload, arg_or_empty(step, "transform"@)),
    }
}

/// `map`: inserts the step's `transform` entries into each object payload and
/// retags every frame with the step and its output type.
#[derive(Debug, Clone, Copy, PartialEq, Eq)]
pub struct MapExecutor;

impl CommandExecutor for MapExecutor {
    fn execute(&self, step: &ComposedStep, input: Vec<FrameEnvelope>, ctx: &mut ExecutionContext) -> (r: Result<
        Vec<FrameEnvelope>,
        PipelineError,
    >)
        ensures
            r matches Ok(fs) && fs@ == input@.map_values(|f: FrameEnvelope| mapped_frame(*step, f)),
    {
        let transform = arg_or_empty_exec(step, "transform");
        let trans = json_as_object(&transform);
        let mut out: Vec<FrameEnvelope> = Vec::new();
        let mut i: usize = 0;
        while i < input.len()
            invariant
                i <= input@.len(),
                transform == arg_or_empty(*step, "transform"@),
                trans is None <==> json_entries(transform) is None,
                trans matches Some(es) ==> json_entries(transform) == Some(entry_views(es@)),
                out@ == input@.take(i as int).map_values(|f: FrameEnvelope| mapped_frame(*step, f)),
            decreases input@.len() - i,
        {
            let mut payload = clone_json(&input[i].payload);
            if json_as_object(&payload).is_some() {
                if let Some(es) = &trans {
                    let ghost p0 = payload;
                    let ghost ev = entry_views(es@);
                    let mut k: usize = 0;
                    while k < es.len()
                        invariant
                            k <= es@.len(),
                            ev == entry_views(es@),
                            payload == with_entries(p0, ev.take(k as int)),
                        decreases es@.len() - k,
                    {
                        assert(ev.take(k + 1).drop_last() =~= ev.take(k as int));
                        json_insert(&mut payload, es[k].0.as_str(), clone_json(&es[k].1));
                        k = k + 1;
                    }
                    assert(ev.take(k as int) =~= ev);
                }
            }
            out.push(FrameEnvelope { seq: input[i].seq, step_id: step.step_id.clone(), frame_type: step.output_type.0, payload });
            assert(out@ =~= input@.take(i + 1).map_values(|f: FrameEnvelope| mapped_frame(*step, f)));
            i = i + 1;
        }
        assert(input@.take(i as int) =~= input@);
        Ok(out)
    }
}

/// The built-in executors, as one type to register under command ids.
#[derive(Debug, Clone, Copy, PartialEq, Eq)]
pub enum BuiltinExecutor {
    WikiSearch,
    CitationResolve,
    AdrSummarize,
    WikiPatchPropose,
    Filter,
    MapFrames,
}

impl CommandExecutor for BuiltinExecutor {
    fn execute(&self, step: &ComposedStep, input: Vec<FrameEnvelope>, ctx: &mut ExecutionContext) -> (r: Result<
        Vec<FrameEnvelope>,
        PipelineError,
    >)
        ensures
            r is Ok,
            *self == BuiltinExecutor::Filter ==> (r matches Ok(fs) && fs@ == input@.filter(
                |f: FrameEnvelope| filter_keeps(arg_or_empty(*step, "predicate"@), f.payload),
            )),
            *self == BuiltinExecutor::MapFrames ==> (r matches Ok(fs) && fs@ == input@.map_values(|f: FrameEnvelope| mapped_frame(*step, f))),
    {
        match self {
            BuiltinExecutor::WikiSearch => WikiSearchExecutor.execute(step, input, ctx),
            BuiltinExecutor::CitationResolve => CitationResolveExecutor.execute(step, input, ctx),
            BuiltinExecutor::AdrSummarize => AdrSummarizeExecutor.execute(step, input, ctx),
            BuiltinExecutor::WikiPatchPropose => WikiPatchProposeExecutor.execute(step, input, ctx),
            BuiltinExecutor::Filter => FilterExecutor.execute(step, input, ctx),
            BuiltinExecutor::MapFrames => MapExecutor.execute(step, input, ctx),
        }
    }
}

} // verus!
