//! PipelineGraph: a DAG representation of pipeline structure, with
//! branching (`tee`, `branch`) and joining (`join`) as nodes of their own.

use vstd::prelude::*;

use crate::json::{clone_json, json_from_text, json_of_text};
use crate::pipe::ast::{FailurePolicy, InputBinding, PipelineAst, PipelineStep};
use crate::digraph::{adj_has_cycle, has_cycle, rows, square};
use crate::text::{concat2, owned, str_eq};

verus! {

/// Identifier of a node in the pipeline graph.
#[derive(Debug, PartialEq, Eq, Hash)]
pub struct NodeId(pub String);

impl Clone for NodeId {
    fn clone(&self) -> (r: Self)
        ensures
            r == *self,
    {
        NodeId(self.0.clone())
    }
}

impl NodeId {
    pub fn from_str(s: &str) -> (r: Self)
        ensures
            r.0@ == s@,
    {
        NodeId(owned(s))
    }

    pub fn as_str(&self) -> (r: &str)
        ensures
            r@ == self.0@,
    {
        self.0.as_str()
    }
}

#[derive(Debug, PartialEq, Eq)]
pub enum BranchCondition {
    FrameType,
    Predicate { field: String, op: String },
}

#[derive(Debug, Clone, Copy, PartialEq, Eq, Structural)]
pub enum MergeStrategy {
    Concat,
    Interleave,
    FirstNonEmpty,
}

/// A node of the pipeline graph.
#[derive(Debug, PartialEq, Eq)]
pub enum Node {
    /// A command invocation.
    Command { node_id: NodeId, command_id: String, args: serde_json::Value },
    /// Splits one stream into several branches.
    Tee { node_id: NodeId, branches: Vec<NodeId> },
    /// Routes frames to one of several branches, each with its predicate value.
    Branch { node_id: NodeId, condition: BranchCondition, branches: Vec<(NodeId, serde_json::Value)> },
    /// Merges branches back into one stream.
    Join { node_id: NodeId, sources: Vec<NodeId>, merge_strategy: MergeStrategy },
    Entry { node_id: NodeId },
    Exit { node_id: NodeId },
}

pub open spec fn node_key(n: Node) -> Seq<char> {
    match n {
        Node::Command { node_id, .. } => node_id.0@,
        Node::Tee { node_id, .. } => node_id.0@,
        Node::Branch { node_id, .. } => node_id.0@,
        Node::Join { node_id, .. } => node_id.0@,
        Node::Entry { node_id } => node_id.0@,
        Node::Exit { node_id } => node_id.0@,
    }
}

impl Node {
    pub fn node_id(&self) -> (r: &NodeId)
        ensures
            r.0@ == node_key(*self),
    {
        match self {
            Node::Command { node_id, .. } => node_id,
            Node::Tee { node_id, .. } => node_id,
            Node::Branch { node_id, .. } => node_id,
            Node::Join { node_id, .. } => node_id,
            Node::Entry { node_id } => node_id,
            Node::Exit { node_id } => node_id,
        }
    }
}

/// A directed edge.
#[derive(Debug, PartialEq, Eq)]
pub struct Edge {
    pub from: NodeId,
    pub to: NodeId,
    pub label: Option<String>,
}

#[derive(Debug, Clone, PartialEq, Eq)]
pub enum GraphError {
    DuplicateNodeId(NodeId),
    NodeNotFound(NodeId),
    CycleDetected,
    NotLinearGraph { reason: String },
    MissingEntry,
    MissingExit,
    DanglingEdge { from: NodeId, to: NodeId },
    MultipleEntries,
}

pub open spec fn graph_error_text(e: GraphError) -> Seq<char> {
    match e {
        GraphError::DuplicateNodeId(id) => "duplicate node id: "@ + id.0@,
        GraphError::NodeNotFound(id) => "node not found: "@ + id.0@,
        GraphError::CycleDetected => "cycle detected in pipeline graph"@,
        GraphError::NotLinearGraph { reason } => "graph is not a linear chain: "@ + reason@,
        GraphError::MissingEntry => "pipeline graph missing entry node"@,
        GraphError::MissingExit => "pipeline graph missing exit node"@,
        GraphError::DanglingEdge { from, to } => "dangling edge from "@ + from.0@ + " to "@ + to.0@,
        GraphError::MultipleEntries => "pipeline graph has multiple entry nodes"@,
    }
}

impl GraphError {
    /// The error message.
    pub fn to_string(&self) -> (r: String)
        ensures
            r@ == graph_error_text(*self),
    {
        match self {
            GraphError::DuplicateNodeId(id) => concat2("duplicate node id: ", id.0.as_str()),
            GraphError::NodeNotFound(id) => concat2("node not found: ", id.0.as_str()),
            GraphError::CycleDetected => owned("cycle detected in pipeline graph"),
            GraphError::NotLinearGraph { reason } => concat2("graph is not a linear chain: ", reason.as_str()),
            GraphError::MissingEntry => owned("pipeline graph missing entry node"),
            GraphError::MissingExit => owned("pipeline graph missing exit node"),
            GraphError::DanglingEdge { from, to } => {
                let head = crate::text::concat3("dangling edge from ", from.0.as_str(), " to ");
                concat2(head.as_str(), to.0.as_str())
            },
            GraphError::MultipleEntries => owned("pipeline graph has multiple entry nodes"),
        }
    }
}

/// Index of the node with id `id`.
pub open spec fn find_node(nodes: Seq<Node>, id: Seq<char>) -> Option<int>
    decreases nodes.len(),
{
    if nodes.len() == 0 {
        None
    } else if node_key(nodes.last()) == id {
        Some(nodes.len() - 1)
    } else {
        find_node(nodes.drop_last(), id)
    }
}

proof fn lemma_find_node(nodes: Seq<Node>, id: Seq<char>)
    ensures
        find_node(nodes, id) matches Some(i) ==> 0 <= i < nodes.len() && node_key(nodes[i]) == id,
        find_node(nodes, id) is None <==> forall|j: int| 0 <= j < nodes.len() ==> node_key(#[trigger] nodes[j]) != id,
    decreases nodes.len(),
{
    if nodes.len() > 0 {
        lemma_find_node(nodes.drop_last(), id);
        if node_key(nodes.last()) != id {
            assert forall|j: int| 0 <= j < nodes.len() - 1 implies nodes.drop_last()[j] == nodes[j] by {}
        }
    }
}

/// Where a node id is found among the nodes.
pub proof fn lemma_find_node_pub(nodes: Seq<Node>, id: Seq<char>)
    ensures
        find_node(nodes, id) matches Some(i) ==> 0 <= i < nodes.len() && node_key(nodes[i]) == id,
        find_node(nodes, id) is None <==> forall|j: int| 0 <= j < nodes.len() ==> node_key(#[trigger] nodes[j]) != id,
{
    lemma_find_node(nodes, id);
}

pub open spec fn unique_nodes(nodes: Seq<Node>) -> bool {
    forall|i: int, j: int| 0 <= i < j < nodes.len() ==> node_key(#[trigger] nodes[i]) != node_key(#[trigger] nodes[j])
}

/// A directed acyclic graph of pipeline nodes; each node id occurs once.
#[derive(Debug)]
pub struct PipelineGraph {
    pub graph_id: String,
    pub edges: Vec<Edge>,
    nodes: Vec<Node>,
    entry: NodeId,
    exits: Vec<NodeId>,
}

impl PipelineGraph {
    pub closed spec fn id(&self) -> String {
        self.graph_id
    }

    pub closed spec fn edge_seq(&self) -> Seq<Edge> {
        self.edges@
    }

    pub closed spec fn node_seq(&self) -> Seq<Node> {
        self.nodes@
    }

    pub closed spec fn entry_key(&self) -> Seq<char> {
        self.entry.0@
    }

    pub closed spec fn exit_keys(&self) -> Seq<NodeId> {
        self.exits@
    }

    pub open spec fn wf(&self) -> bool {
        unique_nodes(self.node_seq())
    }

    pub open spec fn has_node(&self, id: Seq<char>) -> bool {
        find_node(self.node_seq(), id) is Some
    }

    /// An empty graph; its entry is a placeholder id until one is set.
    pub fn new(graph_id: String) -> (r: Self)
        ensures
            r.wf(),
            r.id() == graph_id,
            r.edge_seq().len() == 0,
            r.node_seq().len() == 0,
            r.entry_key() == "__dummy"@,
            r.exit_keys().len() == 0,
    {
        PipelineGraph { graph_id, edges: Vec::new(), nodes: Vec::new(), entry: NodeId::from_str("__dummy"), exits: Vec::new() }
    }

    fn index_of(&self, id: &str) -> (r: Option<usize>)
        ensures
            r matches Some(i) ==> find_node(self.node_seq(), id@) == Some(i as int) && i < self.node_seq().len(),
            r is None ==> find_node(self.node_seq(), id@) is None,
    {
        proof { lemma_find_node(self.nodes@, id@); }
        let mut i: usize = self.nodes.len();
        assert(self.nodes@.take(i as int) =~= self.nodes@);
        while i > 0
            invariant
                i <= self.nodes@.len(),
                find_node(self.nodes@, id@) == find_node(self.nodes@.take(i as int), id@),
            decreases i,
        {
            assert(self.nodes@.take(i as int).drop_last() =~= self.nodes@.take(i - 1));
            if str_eq(self.nodes[i - 1].node_id().as_str(), id) {
                return Some(i - 1);
            }
            i = i - 1;
        }
        None
    }

    /// The node with id `id`, if any.
    pub fn get_node(&self, id: &NodeId) -> (r: Option<&Node>)
        ensures
            find_node(self.node_seq(), id.0@) matches Some(i) ==> r == Some(&self.node_seq()[i]),
            find_node(self.node_seq(), id.0@) is None ==> r is None,
    {
        match self.index_of(id.as_str()) {
            Some(i) => Some(&self.nodes[i]),
            None => None,
        }
    }

    /// The node ids, in the order the nodes were added.
    pub fn node_ids(&self) -> (r: Vec<NodeId>)
        ensures
            r@.len() == self.node_seq().len(),
            forall|i: int| 0 <= i < r@.len() ==> (#[trigger] r@[i]).0@ == node_key(self.node_seq()[i]),
    {
        let mut out: Vec<NodeId> = Vec::new();
        let mut i: usize = 0;
        while i < self.nodes.len()
            invariant
                i <= self.nodes@.len(),
                out@.len() == i,
                forall|j: int| 0 <= j < i ==> (#[trigger] out@[j]).0@ == node_key(self.nodes@[j]),
            decreases self.nodes@.len() - i,
        {
            out.push(NodeId::from_str(self.nodes[i].node_id().as_str()));
            i = i + 1;
        }
        out
    }

    /// The graph's id.
    pub fn graph_id(&self) -> (r: &String)
        ensures
            *r == self.id(),
    {
        &self.graph_id
    }

    /// Number of nodes.
    pub fn node_count(&self) -> (r: usize)
        ensures
            r == self.node_seq().len(),
    {
        self.nodes.len()
    }

    pub fn entry_id(&self) -> (r: &NodeId)
        ensures
            r.0@ == self.entry_key(),
    {
        &self.entry
    }

    pub fn exit_ids(&self) -> (r: &[NodeId])
        ensures
            r@ == self.exit_keys(),
    {
        self.exits.as_slice()
    }

    /// Adds a node; an id already present is refused.
    pub fn add_node(&mut self, node: Node) -> (r: Result<(), GraphError>)
        requires
            old(self).wf(),
        ensures
            final(self).wf(),
            final(self).id() == old(self).id(),
            final(self).edge_seq() == old(self).edge_seq(),
            final(self).entry_key() == old(self).entry_key(),
            final(self).exit_keys() == old(self).exit_keys(),
            old(self).has_node(node_key(node)) ==> final(self).node_seq() == old(self).node_seq() && (r matches Err(
                GraphError::DuplicateNodeId(id),
            ) && id.0@ == node_key(node)),
            !old(self).has_node(node_key(node)) ==> r is Ok && final(self).node_seq() == old(self).node_seq().push(node),
    {
        if self.index_of(node.node_id().as_str()).is_some() {
            return Err(GraphError::DuplicateNodeId(NodeId::from_str(node.node_id().as_str())));
        }
        proof { lemma_find_node(self.nodes@, node_key(node)); }
        self.nodes.push(node);
        Ok(())
    }

    /// Adds an edge between two existing nodes.
    pub fn add_edge(&mut self, from: NodeId, to: NodeId) -> (r: Result<(), GraphError>)
        ensures
            final(self).id() == old(self).id(),
            final(self).node_seq() == old(self).node_seq(),
            final(self).entry_key() == old(self).entry_key(),
            final(self).exit_keys() == old(self).exit_keys(),
            !old(self).has_node(from.0@) ==> final(self).edge_seq() == old(self).edge_seq() && r == Err::<(), GraphError>(
                GraphError::NodeNotFound(from),
            ),
            old(self).has_node(from.0@) && !old(self).has_node(to.0@) ==> final(self).edge_seq() == old(self).edge_seq() && r
                == Err::<(), GraphError>(GraphError::NodeNotFound(to)),
            old(self).has_node(from.0@) && old(self).has_node(to.0@) ==> r is Ok && final(self).edge_seq() == old(
                self,
            ).edge_seq().push(Edge { from, to, label: None }),
    {
        if self.index_of(from.as_str()).is_none() {
            return Err(GraphError::NodeNotFound(from));
        }
        if self.index_of(to.as_str()).is_none() {
            return Err(GraphError::NodeNotFound(to));
        }
        self.edges.push(Edge { from, to, label: None });
        Ok(())
    }

    /// Sets the entry node, which must exist.
    pub fn set_entry(&mut self, entry: NodeId) -> (r: Result<(), GraphError>)
        ensures
            final(self).id() == old(self).id(),
            final(self).node_seq() == old(self).node_seq(),
            final(self).edge_seq() == old(self).edge_seq(),
            final(self).exit_keys() == old(self).exit_keys(),
            old(self).has_node(entry.0@) ==> r is Ok && final(self).entry_key() == entry.0@,
            !old(self).has_node(entry.0@) ==> final(self).entry_key() == old(self).entry_key() && r == Err::<
                (),
                GraphError,
            >(GraphError::NodeNotFound(entry)),
    {
        if self.index_of(entry.as_str()).is_none() {
            return Err(GraphError::NodeNotFound(entry));
        }
        self.entry = entry;
        Ok(())
    }

    /// Adds an exit node, which must exist.
    pub fn add_exit(&mut self, exit: NodeId) -> (r: Result<(), GraphError>)
        ensures
            final(self).id() == old(self).id(),
            final(self).node_seq() == old(self).node_seq(),
            final(self).edge_seq() == old(self).edge_seq(),
            final(self).entry_key() == old(self).entry_key(),
            old(self).has_node(exit.0@) ==> r is Ok && final(self).exit_keys() == old(self).exit_keys().push(exit),
            !old(self).has_node(exit.0@) ==> final(self).exit_keys() == old(self).exit_keys() && r == Err::<
                (),
                GraphError,
            >(GraphError::NodeNotFound(exit)),
    {
        if self.index_of(exit.as_str()).is_none() {
            return Err(GraphError::NodeNotFound(exit));
        }
        self.exits.push(exit);
        Ok(())
    }
}


// ---------------------------------------------------------------------------
// Validation.
// ---------------------------------------------------------------------------

/// Some edge goes from node `m` to node `j`.
pub open spec fn graph_edge(g: PipelineGraph, m: int, j: int) -> bool {
    exists|e: int| 0 <= e < g.edge_seq().len() && (#[trigger] g.edge_seq()[e]).from.0@ == node_key(g.node_seq()[m])
        && g.edge_seq()[e].to.0@ == node_key(g.node_seq()[j])
}

/// The adjacency matrix of the graph, over node positions.
pub open spec fn graph_matrix(g: PipelineGraph) -> Seq<Seq<bool>> {
    Seq::new(g.node_seq().len(), |m: int| Seq::new(g.node_seq().len(), |j: int| graph_edge(g, m, j)))
}

pub open spec fn graph_has_cycle(g: PipelineGraph) -> bool {
    adj_has_cycle(graph_matrix(g))
}

/// The first edge, from position `p` on, with an endpoint that is not a node.
pub open spec fn first_dangling(g: PipelineGraph, p: int) -> Option<int>
    decreases g.edge_seq().len() - p,
{
    if p < 0 || p >= g.edge_seq().len() {
        None
    } else if !g.has_node(g.edge_seq()[p].from.0@) || !g.has_node(g.edge_seq()[p].to.0@) {
        Some(p)
    } else {
        first_dangling(g, p + 1)
    }
}

pub open spec fn entry_ok(g: PipelineGraph) -> bool {
    find_node(g.node_seq(), g.entry_key()) matches Some(i) && g.node_seq()[i] is Entry
}

pub open spec fn exit_ok(g: PipelineGraph, x: NodeId) -> bool {
    find_node(g.node_seq(), x.0@) matches Some(i) && g.node_seq()[i] is Exit
}

/// What validating a graph answers: an entry node, then exit nodes, then
/// edges between nodes, then no cycle.
pub open spec fn validation(g: PipelineGraph) -> Result<(), GraphError> {
    if g.node_seq().len() == 0 || !entry_ok(g) {
        Err(GraphError::MissingEntry)
    } else if g.exit_keys().len() == 0 || exists|x: int| 0 <= x < g.exit_keys().len() && !exit_ok(g, #[trigger] g.exit_keys()[x]) {
        Err(GraphError::MissingExit)
    } else {
        match first_dangling(g, 0) {
            Some(p) => Err(GraphError::DanglingEdge { from: g.edge_seq()[p].from, to: g.edge_seq()[p].to }),
            None => if graph_has_cycle(g) {
                Err(GraphError::CycleDetected)
            } else {
                Ok(())
            },
        }
    }
}

// ---------------------------------------------------------------------------
// Linearisation.
// ---------------------------------------------------------------------------

/// Why a walk from the entry stops short of the exit.
pub enum WalkStop {
    NotFound(Seq<char>),
    NotLinear(Seq<char>),
}

/// The sources of the edges entering `id`, in edge order.
pub open spec fn predecessors(edges: Seq<Edge>, id: Seq<char>) -> Seq<Seq<char>>
    decreases edges.len(),
{
    if edges.len() == 0 {
        Seq::<Seq<char>>::empty()
    } else if edges.last().to.0@ == id {
        predecessors(edges.drop_last(), id).push(edges.last().from.0@)
    } else {
        predecessors(edges.drop_last(), id)
    }
}

/// The targets of the edges leaving `id`, in edge order.
pub open spec fn successors(edges: Seq<Edge>, id: Seq<char>) -> Seq<Seq<char>>
    decreases edges.len(),
{
    if edges.len() == 0 {
        Seq::<Seq<char>>::empty()
    } else if edges.last().from.0@ == id {
        successors(edges.drop_last(), id).push(edges.last().to.0@)
    } else {
        successors(edges.drop_last(), id)
    }
}

pub open spec fn is_split_or_merge(n: Node) -> bool {
    n is Tee || n is Branch || n is Join
}

/// The walk from `cur` to `exit` along single successors, with `fuel` steps
/// left: the positions of the command nodes met, or why it stops; `None` when
/// the fuel runs out.
pub open spec fn walk(g: PipelineGraph, cur: Seq<char>, exit: Seq<char>, fuel: nat) -> Option<Result<Seq<int>, WalkStop>>
    decreases fuel,
{
    if cur == exit {
        Some(Ok(Seq::<int>::empty()))
    } else if fuel == 0 {
        None
    } else {
        match find_node(g.node_seq(), cur) {
            None => Some(Err(WalkStop::NotFound(cur))),
            Some(i) => if is_split_or_merge(g.node_seq()[i]) {
                Some(Err(WalkStop::NotLinear("graph contains tee/branch/join nodes"@)))
            } else {
                let succ = successors(g.edge_seq(), cur);
                if succ.len() == 0 {
                    Some(Err(WalkStop::NotLinear("dead end detected"@)))
                } else if succ.len() != 1 {
                    Some(Err(WalkStop::NotLinear("branch or merge detected"@)))
                } else {
                    match walk(g, succ[0], exit, (fuel - 1) as nat) {
                        None => None,
                        Some(Err(e)) => Some(Err(e)),
                        Some(Ok(rest)) => Some(Ok(if g.node_seq()[i] is Command {
                            seq![i] + rest
                        } else {
                            rest
                        })),
                    }
                }
            }
        }
    }
}

pub open spec fn prepend(done: Seq<int>, w: Option<Result<Seq<int>, WalkStop>>) -> Option<Result<Seq<int>, WalkStop>> {
    match w {
        Some(Ok(rest)) => Some(Ok(done + rest)),
        other => other,
    }
}

/// The step a command node at position `i` becomes, `k`-th in the pipeline.
pub open spec fn step_of_node(g: PipelineGraph, i: int, k: int, s: PipelineStep) -> bool {
    g.node_seq()[i] matches Node::Command { node_id, command_id, args } && {
        &&& s.step_id == node_id.0
        &&& s.command_id == command_id
        &&& s.input_binding == (if k == 0 {
            InputBinding::Constant(args)
        } else {
            InputBinding::PreviousStep
        })
        &&& s.args == json_of_text("{}"@)
        &&& s.failure_policy == FailurePolicy::FailFast
    }
}

/// What linearising a graph answers (see `to_linear_ast`).
pub open spec fn linear_outcome(g: PipelineGraph, r: Result<PipelineAst, GraphError>) -> bool {
    &&& g.exit_keys().len() == 0 ==> r == Err::<PipelineAst, GraphError>(GraphError::MissingExit)
    &&& g.exit_keys().len() > 0 ==> match walk(g, g.entry_key(), g.exit_keys()[0].0@, g.node_seq().len() as nat) {
        Some(Err(WalkStop::NotFound(id))) => r matches Err(GraphError::NodeNotFound(x)) && x.0@ == id,
        Some(Err(WalkStop::NotLinear(m))) => r matches Err(GraphError::NotLinearGraph { reason }) && reason@ == m,
        Some(Ok(idx)) => r matches Ok(ast) && ast.pipeline_id == g.id() && ast.steps@.len() == idx.len()
            && forall|k: int| 0 <= k < idx.len() ==> step_of_node(g, #[trigger] idx[k], k, ast.steps@[k]),
        None => r == Err::<PipelineAst, GraphError>(GraphError::CycleDetected),
    }
}

impl PipelineGraph {
    /// Validates the graph: an entry node, at least one exit and every exit
    /// an exit node, every edge between nodes, and no cycle.
    pub fn validate(&self) -> (r: Result<(), GraphError>)
        requires
            self.wf(),
        ensures
            r == validation(*self),
    {
        if self.nodes.len() == 0 {
            return Err(GraphError::MissingEntry);
        }
        match self.index_of(self.entry.as_str()) {
            None => {
                return Err(GraphError::MissingEntry);
            },
            Some(i) => {
                if !matches!(self.nodes[i], Node::Entry { .. }) {
                    return Err(GraphError::MissingEntry);
                }
            },
        }
        if self.exits.len() == 0 {
            return Err(GraphError::MissingExit);
        }
        let mut x: usize = 0;
        while x < self.exits.len()
            invariant
                self.node_seq().len() > 0,
                entry_ok(*self),
                self.exit_keys().len() > 0,
                x <= self.exits@.len(),
                forall|y: int| 0 <= y < x ==> exit_ok(*self, #[trigger] self.exit_keys()[y]),
            decreases self.exits@.len() - x,
        {
            match self.index_of(self.exits[x].as_str()) {
                None => {
                    assert(!exit_ok(*self, self.exit_keys()[x as int]));
                    return Err(GraphError::MissingExit);
                },
                Some(i) => {
                    if !matches!(self.nodes[i], Node::Exit { .. }) {
                        assert(!exit_ok(*self, self.exit_keys()[x as int]));
                        return Err(GraphError::MissingExit);
                    }
                },
            }
            x = x + 1;
        }
        let mut p: usize = 0;
        while p < self.edges.len()
            invariant
                self.node_seq().len() > 0,
                entry_ok(*self),
                self.exit_keys().len() > 0,
                forall|y: int| 0 <= y < self.exit_keys().len() ==> exit_ok(*self, #[trigger] self.exit_keys()[y]),
                p <= self.edges@.len(),
                first_dangling(*self, 0) == first_dangling(*self, p as int),
            decreases self.edges@.len() - p,
        {
            let e = &self.edges[p];
            if self.index_of(e.from.as_str()).is_none() || self.index_of(e.to.as_str()).is_none() {
                return Err(GraphError::DanglingEdge { from: e.from.clone(), to: e.to.clone() });
            }
            p = p + 1;
        }
        let adj = self.matrix();
        if has_cycle(&adj) {
            Err(GraphError::CycleDetected)
        } else {
            Ok(())
        }
    }

    fn edge_between(&self, from: &str, to: &str) -> (r: bool)
        ensures
            r == exists|e: int| 0 <= e < self.edge_seq().len() && (#[trigger] self.edge_seq()[e]).from.0@ == from@
                && self.edge_seq()[e].to.0@ == to@,
    {
        let mut e: usize = 0;
        while e < self.edges.len()
            invariant
                e <= self.edges@.len(),
                forall|f: int| 0 <= f < e ==> !((#[trigger] self.edges@[f]).from.0@ == from@ && self.edges@[f].to.0@ == to@),
            decreases self.edges@.len() - e,
        {
            if str_eq(self.edges[e].from.as_str(), from) && str_eq(self.edges[e].to.as_str(), to) {
                return true;
            }
            e = e + 1;
        }
        false
    }

    /// The adjacency matrix over node positions.
    pub fn matrix(&self) -> (adj: Vec<Vec<bool>>)
        ensures
            square(adj@),
            rows(adj@) == graph_matrix(*self),
    {
        let n = self.nodes.len();
        let mut adj: Vec<Vec<bool>> = Vec::new();
        let mut m: usize = 0;
        while m < n
            invariant
                n == self.nodes@.len(),
                m <= n,
                adj@.len() == m,
                forall|a: int| 0 <= a < m ==> (#[trigger] adj@[a])@.len() == n,
                forall|a: int, j: int| 0 <= a < m && 0 <= j < n ==> (adj@[a]@[j] <==> graph_edge(*self, a, j)),
            decreases n - m,
        {
            let mut row: Vec<bool> = Vec::new();
            let mut j: usize = 0;
            while j < n
                invariant
                    n == self.nodes@.len(),
                    m < n,
                    j <= n,
                    row@.len() == j,
                    forall|b: int| 0 <= b < j ==> (row@[b] <==> graph_edge(*self, m as int, b)),
                decreases n - j,
            {
                row.push(self.edge_between(self.nodes[m].node_id().as_str(), self.nodes[j].node_id().as_str()));
                j = j + 1;
            }
            adj.push(row);
            m = m + 1;
        }
        assert(rows(adj@) =~= graph_matrix(*self)) by {
            assert forall|a: int| 0 <= a < n implies #[trigger] rows(adj@)[a] =~= graph_matrix(*self)[a] by {}
        }
        adj
    }

    /// The targets of the edges leaving `id`, in edge order.
    pub fn successors_of(&self, id: &str) -> (r: Vec<String>)
        ensures
            crate::text::views(r@) == successors(self.edge_seq(), id@),
    {
        let mut out: Vec<String> = Vec::new();
        let mut e: usize = 0;
        while e < self.edges.len()
            invariant
                e <= self.edges@.len(),
                crate::text::views(out@) == successors(self.edges@.take(e as int), id@),
            decreases self.edges@.len() - e,
        {
            assert(self.edges@.take(e + 1).drop_last() =~= self.edges@.take(e as int));
            if str_eq(self.edges[e].from.as_str(), id) {
                let ghost prev = out@;
                out.push(self.edges[e].to.0.clone());
                assert(crate::text::views(out@) =~= crate::text::views(prev).push(self.edges@[e as int].to.0@));
            }
            e = e + 1;
        }
        assert(self.edges@.take(e as int) =~= self.edges@);
        out
    }

    /// The sources of the edges entering `id`, in edge order.
    pub fn predecessors_of(&self, id: &str) -> (r: Vec<String>)
        ensures
            crate::text::views(r@) == predecessors(self.edge_seq(), id@),
    {
        let mut out: Vec<String> = Vec::new();
        let mut e: usize = 0;
        while e < self.edges.len()
            invariant
                e <= self.edges@.len(),
                crate::text::views(out@) == predecessors(self.edges@.take(e as int), id@),
            decreases self.edges@.len() - e,
        {
            assert(self.edges@.take(e + 1).drop_last() =~= self.edges@.take(e as int));
            if str_eq(self.edges[e].to.as_str(), id) {
                let ghost prev = out@;
                out.push(self.edges[e].from.0.clone());
                assert(crate::text::views(out@) =~= crate::text::views(prev).push(self.edges@[e as int].from.0@));
            }
            e = e + 1;
        }
        assert(self.edges@.take(e as int) =~= self.edges@);
        out
    }

    /// The node at a position.
    pub fn node_at(&self, p: usize) -> (r: &Node)
        requires
            p < self.node_seq().len(),
        ensures
            *r == self.node_seq()[p as int],
    {
        &self.nodes[p]
    }

    /// The pipeline of a linear chain: the command nodes met walking from the
    /// entry to the first exit, one successor at a time. The first command
    /// takes its arguments as constant input, the others the previous
    /// step's output. A walk that meets more nodes than the graph has goes
    /// round a cycle and is reported as one.
    pub fn to_linear_ast(&self) -> (r: Result<PipelineAst, GraphError>)
        requires
            self.wf(),
        ensures
            linear_outcome(*self, r),
    {
        if self.exits.len() == 0 {
            return Err(GraphError::MissingExit);
        }
        let exit = self.exits[0].as_str();
        let ghost n1: nat = self.nodes@.len() as nat;
        let ghost whole = walk(*self, self.entry_key(), exit@, n1);
        let mut current = owned(self.entry.as_str());
        let mut fuel: usize = self.nodes.len();
        let mut steps: Vec<PipelineStep> = Vec::new();
        let ghost mut done: Seq<int> = Seq::empty();
        assert(done + Seq::<int>::empty() =~= done);
        while !str_eq(current.as_str(), exit)
            invariant
                self.wf(),
                self.exit_keys().len() > 0,
                exit@ == self.exit_keys()[0].0@,
                n1 == self.node_seq().len() as nat,
                whole == walk(*self, self.entry_key(), exit@, n1),
                whole == prepend(done, walk(*self, current@, exit@, fuel as nat)),
                steps@.len() == done.len(),
                forall|k: int| 0 <= k < done.len() ==> step_of_node(*self, #[trigger] done[k], k, steps@[k]),
            decreases fuel,
        {
            if fuel == 0 {
                return Err(GraphError::CycleDetected);
            }
            let ghost cur = current@;
            let ghost done0 = done;
            let i = match self.index_of(current.as_str()) {
                Some(i) => i,
                None => {
                    assert(walk(*self, current@, exit@, fuel as nat) == Some(Err::<Seq<int>, WalkStop>(WalkStop::NotFound(current@))));
                    return Err(GraphError::NodeNotFound(NodeId(current)));
                },
            };
            proof { lemma_find_node(self.nodes@, current@); }
            match &self.nodes[i] {
                Node::Command { node_id, command_id, args } => {
                    let input_binding = if steps.len() == 0 {
                        InputBinding::Constant(clone_json(args))
                    } else {
                        InputBinding::PreviousStep
                    };
                    steps.push(PipelineStep {
                        step_id: node_id.0.clone(),
                        command_id: command_id.clone(),
                        input_binding,
                        args: json_from_text("{}"),
                        failure_policy: FailurePolicy::FailFast,
                    });
                    proof { done = done.push(i as int); }
                },
                Node::Tee { .. } | Node::Branch { .. } | Node::Join { .. } => {
                    assert(is_split_or_merge(self.nodes@[i as int]));
                    assert(walk(*self, current@, exit@, fuel as nat) == Some(Err::<Seq<int>, WalkStop>(WalkStop::NotLinear("graph contains tee/branch/join nodes"@))));
                    return Err(GraphError::NotLinearGraph { reason: owned("graph contains tee/branch/join nodes") });
                },
                Node::Entry { .. } | Node::Exit { .. } => {},
            }
            let next = self.successors_of(current.as_str());
            if next.len() == 0 {
                return Err(GraphError::NotLinearGraph { reason: owned("dead end detected") });
            }
            if next.len() != 1 {
                return Err(GraphError::NotLinearGraph { reason: owned("branch or merge detected") });
            }
            proof {
                assert(crate::text::views(next@)[0] == next@[0]@);
                let rest_walk = walk(*self, next@[0]@, exit@, (fuel - 1) as nat);
                match rest_walk {
                    Some(Ok(rest)) => {
                        if self.nodes@[i as int] is Command {
                            assert(done0 + (seq![i as int] + rest) =~= done + rest);
                        } else {
                            assert(done == done0);
                        }
                    },
                    _ => {},
                }
                assert(forall|k: int| 0 <= k < done.len() ==> step_of_node(*self, #[trigger] done[k], k, steps@[k]));
            }
            current = next[0].clone();
            fuel = fuel - 1;
        }
        Ok(PipelineAst { pipeline_id: self.graph_id.clone(), steps })
    }
}

} // verus!
