//! Intent parsing: natural-language intent to a pipeline graph.

use vstd::prelude::*;

use crate::json::{json_from_text, json_of_text};
use crate::pipeline::graph::{node_key, Edge, GraphError, Node, NodeId, PipelineGraph};
use crate::text::{ascii_lower, concat2, contains_str, has_substring, owned, to_ascii_lower};

verus! {

#[derive(Debug, Clone, PartialEq, Eq)]
pub enum IntentParseError {
    UnrecognizedIntent(String),
    AmbiguousIntent(String),
    UnsupportedCommand(String),
    Graph(GraphError),
}

pub open spec fn intent_error_text(e: IntentParseError) -> Seq<char> {
    match e {
        IntentParseError::UnrecognizedIntent(s) => "unrecognized intent: "@ + s@,
        IntentParseError::AmbiguousIntent(s) => "ambiguous intent: "@ + s@,
        IntentParseError::UnsupportedCommand(s) => "unsupported command: "@ + s@,
        IntentParseError::Graph(g) => "graph error: "@ + crate::pipeline::graph::graph_error_text(g),
    }
}

impl IntentParseError {
    /// The error message.
    pub fn to_string(&self) -> (r: String)
        ensures
            r@ == intent_error_text(*self),
    {
        match self {
            IntentParseError::UnrecognizedIntent(s) => concat2("unrecognized intent: ", s.as_str()),
            IntentParseError::AmbiguousIntent(s) => concat2("ambiguous intent: ", s.as_str()),
            IntentParseError::UnsupportedCommand(s) => concat2("unsupported command: ", s.as_str()),
            IntentParseError::Graph(g) => concat2("graph error: ", g.to_string().as_str()),
        }
    }
}

/// Turns natural-language intent into a pipeline graph.
pub trait IntentParser {
    fn parse(&self, intent: &str) -> Result<PipelineGraph, IntentParseError>;
}

/// The pipelines the mock parser knows.
#[derive(Debug, Clone, Copy, PartialEq, Eq, Structural)]
pub enum IntentTemplate {
    SearchSummarize,
    Search,
    Summarize,
    PatchPropose,
}

/// The pipeline an intent (in lower case) asks for, by its keywords.
pub open spec fn template_of(lower: Seq<char>) -> Option<IntentTemplate> {
    if has_substring(lower, "search"@) && has_substring(lower, "summarize"@) {
        Some(IntentTemplate::SearchSummarize)
    } else if has_substring(lower, "search"@) {
        Some(IntentTemplate::Search)
    } else if has_substring(lower, "summarize"@) {
        Some(IntentTemplate::Summarize)
    } else if has_substring(lower, "patch"@) || has_substring(lower, "propose"@) {
        Some(IntentTemplate::PatchPropose)
    } else {
        None
    }
}

pub open spec fn template_id(t: IntentTemplate) -> Seq<char> {
    match t {
        IntentTemplate::SearchSummarize => "search_and_summarize"@,
        IntentTemplate::Search => "search"@,
        IntentTemplate::Summarize => "summarize"@,
        IntentTemplate::PatchPropose => "patch_propose"@,
    }
}

pub open spec fn search_step() -> (Seq<char>, Seq<char>, Seq<char>) {
    ("search"@, "wiki.search"@, "{\"keyword\":\"__intent_keyword__\"}"@)
}

pub open spec fn resolve_step() -> (Seq<char>, Seq<char>, Seq<char>) {
    ("resolve"@, "citation.resolve"@, "{}"@)
}

/// The commands of a template: node id, command id and the JSON text of its arguments.
pub open spec fn template_commands(t: IntentTemplate) -> Seq<(Seq<char>, Seq<char>, Seq<char>)> {
    match t {
        IntentTemplate::SearchSummarize => seq![search_step(), resolve_step(), ("summarize"@, "adr.summarize"@, "{}"@)],
        IntentTemplate::Search => seq![search_step()],
        IntentTemplate::Summarize => seq![("summarize"@, "adr.summarize"@, "{}"@)],
        IntentTemplate::PatchPropose => seq![search_step(), resolve_step(), ("propose"@, "wiki.patch.propose"@, "{}"@)],
    }
}

/// A command node with this id, command and arguments (as JSON text).
pub open spec fn is_command(n: Node, id: Seq<char>, command: Seq<char>, args: Seq<char>) -> bool {
    n matches Node::Command { node_id, command_id, args: a } && node_id.0@ == id && command_id@ == command && a == json_of_text(args)
}

/// `g` is the chain entry, the commands in order, exit.
pub open spec fn linear_graph_of(g: PipelineGraph, id: Seq<char>, cmds: Seq<(Seq<char>, Seq<char>, Seq<char>)>) -> bool {
    let n = cmds.len() as int;
    &&& g.id()@ == id
    &&& g.node_seq().len() == n + 2
    &&& g.node_seq()[0] is Entry && node_key(g.node_seq()[0]) == "entry"@
    &&& g.node_seq()[n + 1] is Exit && node_key(g.node_seq()[n + 1]) == "exit"@
    &&& forall|k: int| 1 <= k <= n ==> is_command(#[trigger] g.node_seq()[k], cmds[k - 1].0, cmds[k - 1].1, cmds[k - 1].2)
    &&& g.entry_key() == "entry"@
    &&& g.exit_keys().len() == 1 && g.exit_keys()[0].0@ == "exit"@
    &&& g.edge_seq().len() == n + 1
    &&& forall|k: int| 0 <= k <= n ==> (#[trigger] g.edge_seq()[k]).from.0@ == node_key(g.node_seq()[k])
        && g.edge_seq()[k].to.0@ == node_key(g.node_seq()[k + 1]) && g.edge_seq()[k].label is None
}

/// Builds the chain entry, commands, exit. Node ids are distinct and
/// differ from `entry` and `exit`.
fn build_linear_graph(graph_id: &str, commands: &Vec<(String, String, String)>) -> (r: Result<PipelineGraph, IntentParseError>)
    requires
        forall|i: int, j: int| 0 <= i < j < commands@.len() ==> (#[trigger] commands@[i]).0@ != (#[trigger] commands@[j]).0@,
        forall|i: int| 0 <= i < commands@.len() ==> (#[trigger] commands@[i]).0@ != "entry"@ && commands@[i].0@ != "exit"@,
        "entry"@ != "exit"@,
    ensures
        r matches Ok(g) && g.wf() && linear_graph_of(g, graph_id@, Seq::new(commands@.len(), |k: int| (commands@[k].0@, commands@[k].1@, commands@[k].2@))),
{
    let ghost cmds = Seq::new(commands@.len(), |k: int| (commands@[k].0@, commands@[k].1@, commands@[k].2@));
    let mut graph = PipelineGraph::new(owned(graph_id));
    let entry_node = Node::Entry { node_id: NodeId::from_str("entry") };
    match graph.add_node(entry_node) {
        Ok(()) => {},
        Err(e) => {
            return Err(IntentParseError::Graph(e));
        },
    }
    let n = commands.len();
    let mut k: usize = 0;
    while k < n
        invariant
            n == commands@.len(),
            k <= n,
            graph.wf(),
            graph.id()@ == graph_id@,
            graph.edge_seq().len() == 0,
            graph.exit_keys().len() == 0,
            graph.entry_key() == "__dummy"@,
            graph.node_seq().len() == k + 1,
            graph.node_seq()[0] is Entry && node_key(graph.node_seq()[0]) == "entry"@,
            forall|i: int| 1 <= i <= k ==> is_command(#[trigger] graph.node_seq()[i], commands@[i - 1].0@, commands@[i - 1].1@, commands@[i - 1].2@),
            forall|i: int, j: int| 0 <= i < j < commands@.len() ==> (#[trigger] commands@[i]).0@ != (#[trigger] commands@[j]).0@,
            forall|i: int| 0 <= i < commands@.len() ==> (#[trigger] commands@[i]).0@ != "entry"@ && commands@[i].0@ != "exit"@,
        decreases n - k,
    {
        let (id, command_id, args) = &commands[k];
        let node = Node::Command { node_id: NodeId(id.clone()), command_id: command_id.clone(), args: json_from_text(args.as_str()) };
        proof {
            crate::pipeline::graph::lemma_find_node_pub(graph.node_seq(), id@);
            assert forall|j: int| 0 <= j < graph.node_seq().len() implies node_key(#[trigger] graph.node_seq()[j]) != id@ by {
                if j > 0 {
                    assert(commands@[j - 1].0@ != commands@[k as int].0@);
                }
            }
        }
        match graph.add_node(node) {
            Ok(()) => {},
            Err(e) => {
                return Err(IntentParseError::Graph(e));
            },
        }
        k = k + 1;
    }
    let exit_node = Node::Exit { node_id: NodeId::from_str("exit") };
    proof {
        crate::pipeline::graph::lemma_find_node_pub(graph.node_seq(), "exit"@);
        assert forall|j: int| 0 <= j < graph.node_seq().len() implies node_key(#[trigger] graph.node_seq()[j]) != "exit"@ by {
            if j > 0 {
                assert(commands@[j - 1].0@ != "exit"@);
            }
        }
    }
    match graph.add_node(exit_node) {
        Ok(()) => {},
        Err(e) => {
            return Err(IntentParseError::Graph(e));
        },
    }
    assert(graph.has_node("entry"@)) by {
        crate::pipeline::graph::lemma_find_node_pub(graph.node_seq(), "entry"@);
        assert(node_key(graph.node_seq()[0]) == "entry"@);
    }
    match graph.set_entry(NodeId::from_str("entry")) {
        Ok(()) => {},
        Err(e) => {
            return Err(IntentParseError::Graph(e));
        },
    }
    assert(graph.has_node("exit"@)) by {
        crate::pipeline::graph::lemma_find_node_pub(graph.node_seq(), "exit"@);
        assert(node_key(graph.node_seq()[n as int + 1]) == "exit"@);
    }
    match graph.add_exit(NodeId::from_str("exit")) {
        Ok(()) => {},
        Err(e) => {
            return Err(IntentParseError::Graph(e));
        },
    }
    let mut prev = NodeId::from_str("entry");
    let mut k: usize = 0;
    while k < n
        invariant
            n == commands@.len(),
            k <= n,
            graph.wf(),
            graph.id()@ == graph_id@,
            graph.node_seq().len() == n + 2,
            graph.node_seq()[0] is Entry && node_key(graph.node_seq()[0]) == "entry"@,
            graph.node_seq()[n + 1] is Exit && node_key(graph.node_seq()[n + 1]) == "exit"@,
            forall|i: int| 1 <= i <= n ==> is_command(#[trigger] graph.node_seq()[i], commands@[i - 1].0@, commands@[i - 1].1@, commands@[i - 1].2@),
            graph.entry_key() == "entry"@,
            graph.exit_keys().len() == 1 && graph.exit_keys()[0].0@ == "exit"@,
            graph.edge_seq().len() == k,
            prev.0@ == node_key(graph.node_seq()[k as int]),
            forall|j: int| 0 <= j < k ==> (#[trigger] graph.edge_seq()[j]).from.0@ == node_key(graph.node_seq()[j])
                && graph.edge_seq()[j].to.0@ == node_key(graph.node_seq()[j + 1]) && graph.edge_seq()[j].label is None,
        decreases n - k,
    {
        let next = NodeId(commands[k].0.clone());
        assert(is_command(graph.node_seq()[k + 1], commands@[k as int].0@, commands@[k as int].1@, commands@[k as int].2@));
        assert(next.0@ == node_key(graph.node_seq()[k + 1]));
        proof {
            crate::pipeline::graph::lemma_find_node_pub(graph.node_seq(), prev.0@);
            crate::pipeline::graph::lemma_find_node_pub(graph.node_seq(), next.0@);
        }
        match graph.add_edge(prev, next.clone()) {
            Ok(()) => {},
            Err(e) => {
                return Err(IntentParseError::Graph(e));
            },
        }
        prev = next;
        k = k + 1;
    }
    let last = NodeId::from_str("exit");
    proof {
        crate::pipeline::graph::lemma_find_node_pub(graph.node_seq(), prev.0@);
        crate::pipeline::graph::lemma_find_node_pub(graph.node_seq(), last.0@);
    }
    match graph.add_edge(prev, last) {
        Ok(()) => {},
        Err(e) => {
            return Err(IntentParseError::Graph(e));
        },
    }
    assert(linear_graph_of(graph, graph_id@, cmds));
    Ok(graph)
}

/// A parser that recognises a few fixed intents by keyword.
#[derive(Debug, Clone, Default)]
pub struct MockIntentParser;

impl MockIntentParser {
    pub fn new() -> (r: Self) {
        MockIntentParser
    }

    /// The graph of the pipeline an intent asks for: searching and
    /// summarising, searching, summarising, or proposing a patch.
    pub fn parse_intent(&self, intent: &str) -> (r: Result<PipelineGraph, IntentParseError>)
        ensures
            template_of(ascii_lower(intent@)) matches Some(t) ==> (r matches Ok(g) && g.wf() && linear_graph_of(g, template_id(t), template_commands(t))),
            template_of(ascii_lower(intent@)) is None ==> (r matches Err(IntentParseError::UnrecognizedIntent(s)) && s@ == intent@),
    {
        let lower = to_ascii_lower(intent);
        let has_search = contains_str(lower.as_str(), "search");
        let has_summarize = contains_str(lower.as_str(), "summarize");
        let t = if has_search && has_summarize {
            IntentTemplate::SearchSummarize
        } else if has_search {
            IntentTemplate::Search
        } else if has_summarize {
            IntentTemplate::Summarize
        } else if contains_str(lower.as_str(), "patch") || contains_str(lower.as_str(), "propose") {
            IntentTemplate::PatchPropose
        } else {
            return Err(IntentParseError::UnrecognizedIntent(owned(intent)));
        };
        build_template(t)
    }
}

fn build_template(t: IntentTemplate) -> (r: Result<PipelineGraph, IntentParseError>)
    ensures
        r matches Ok(g) && g.wf() && linear_graph_of(g, template_id(t), template_commands(t)),
{
    proof {
        reveal_strlit("entry");
        reveal_strlit("exit");
        reveal_strlit("search");
        reveal_strlit("resolve");
        reveal_strlit("summarize");
        reveal_strlit("propose");
        assert("entry"@.len() == 5);
        assert("exit"@.len() == 4);
        assert("search"@.len() == 6);
        assert("resolve"@.len() == 7);
        assert("summarize"@.len() == 9);
        assert("propose"@.len() == 7);
        assert("resolve"@[0] == 'r' && "propose"@[0] == 'p');
        assert("entry"@ != "exit"@);
        assert("resolve"@ != "propose"@);
    }
    let mut commands: Vec<(String, String, String)> = Vec::new();
    let id = match t {
        IntentTemplate::SearchSummarize => {
            commands.push((owned("search"), owned("wiki.search"), owned("{\"keyword\":\"__intent_keyword__\"}")));
            commands.push((owned("resolve"), owned("citation.resolve"), owned("{}")));
            commands.push((owned("summarize"), owned("adr.summarize"), owned("{}")));
            assert(commands@[0].0@ == "search"@ && commands@[1].0@ == "resolve"@ && commands@[2].0@ == "summarize"@);
            "search_and_summarize"
        },
        IntentTemplate::Search => {
            commands.push((owned("search"), owned("wiki.search"), owned("{\"keyword\":\"__intent_keyword__\"}")));
            "search"
        },
        IntentTemplate::Summarize => {
            commands.push((owned("summarize"), owned("adr.summarize"), owned("{}")));
            "summarize"
        },
        IntentTemplate::PatchPropose => {
            commands.push((owned("search"), owned("wiki.search"), owned("{\"keyword\":\"__intent_keyword__\"}")));
            commands.push((owned("resolve"), owned("citation.resolve"), owned("{}")));
            commands.push((owned("propose"), owned("wiki.patch.propose"), owned("{}")));
            assert(commands@[0].0@ == "search"@ && commands@[1].0@ == "resolve"@ && commands@[2].0@ == "propose"@);
            "patch_propose"
        },
    };
    let r = build_linear_graph(id, &commands);
    assert(Seq::new(commands@.len(), |k: int| (commands@[k].0@, commands@[k].1@, commands@[k].2@)) =~= template_commands(t));
    r
}

impl IntentParser for MockIntentParser {
    fn parse(&self, intent: &str) -> (r: Result<PipelineGraph, IntentParseError>)
        ensures
            template_of(ascii_lower(intent@)) matches Some(t) ==> (r matches Ok(g) && g.wf() && linear_graph_of(g, template_id(t), template_commands(t))),
            template_of(ascii_lower(intent@)) is None ==> (r matches Err(IntentParseError::UnrecognizedIntent(s)) && s@ == intent@),
    {
        self.parse_intent(intent)
    }
}

} // verus!
