//! The operator plan: an arena-owned directed graph of operator nodes with
//! labeled edges, grown through stage-typed handles. A handle remembers only
//! its own frontier node; the arena is passed by exclusive reference, so the
//! stage type alone governs which growth method can legally be called next:
//! `Init` (only `source`) -> `Processed` (`apply`, `serialize`, `join`) ->
//! `Serialized` (`sink`) -> `Sunk` (terminal).

use vstd::prelude::*;
use vstd::string::StringExecFns;

use crate::names::node_id;
use crate::names::node_id_string;
use crate::operators::Operator;
use crate::operators::OperatorV;
use crate::operators::Serializer;
use crate::operators::Source;
use crate::operators::Target;
use crate::operators::spec_reserved_for_dedicated_entry;

verus! {

/// Why a growth operation or a translation was refused.
#[derive(Clone, Copy, PartialEq, Eq, Structural, Debug)]
pub enum PlanError {
    /// Growth was attempted on a graph with no nodes.
    EmptyPlan,
    /// Growth was attempted through a handle with no frontier node.
    DanglingApplyOperator,
    /// An operator with a dedicated entry point was passed to `apply`.
    WrongApplyOperator,
    /// A join references a mapping-unit identifier with no built fragment.
    MissingParent,
    /// An object map has a parent reference without a join condition, or a
    /// join condition without a parent reference.
    MalformedJoin,
    /// A term map's declared term type is absent or not one of
    /// Iri / Literal / BlankNode.
    UnrecognizedTermKind,
}

/// One node of the plan graph.
#[derive(PartialEq, Eq, Debug)]
pub struct PlanNode {
    pub id: String,
    pub operator: Operator,
}

/// The mathematical shape of a plan node.
pub struct PlanNodeV {
    pub id: Seq<char>,
    pub operator: OperatorV,
}

impl View for PlanNode {
    type V = PlanNodeV;

    open spec fn view(&self) -> PlanNodeV {
        PlanNodeV { id: self.id@, operator: self.operator@ }
    }
}

/// The label on a plan edge, describing the data shape flowing along it.
#[derive(PartialEq, Eq, Debug)]
pub struct PlanEdge {
    pub key: String,
    pub value: String,
}

/// One directed edge of the plan graph.
#[derive(PartialEq, Eq, Debug)]
pub struct GraphEdge {
    pub from: usize,
    pub to: usize,
    pub edge: PlanEdge,
}

/// The mathematical shape of a plan edge with its endpoints.
pub struct GraphEdgeV {
    pub from: int,
    pub to: int,
    pub key: Seq<char>,
    pub value: Seq<char>,
}

impl View for GraphEdge {
    type V = GraphEdgeV;

    open spec fn view(&self) -> GraphEdgeV {
        GraphEdgeV {
            from: self.from as int,
            to: self.to as int,
            key: self.edge.key@,
            value: self.edge.value@,
        }
    }
}

/// The edge label between ordinary operators.
pub open spec fn mapping_edge(from: int, to: int) -> GraphEdgeV {
    GraphEdgeV { from, to, key: ("()")@, value: ("MappingTuple")@ }
}

/// The edge label into a sink.
pub open spec fn serialized_edge(from: int, to: int) -> GraphEdgeV {
    GraphEdgeV { from, to, key: ("()")@, value: ("Serialized Format")@ }
}

/// The arena owning the whole plan graph: nodes, edges, and the indices of
/// all source nodes (so any later unit can join against any earlier unit's
/// fragment).
pub struct PlanGraph {
    pub nodes: Vec<PlanNode>,
    pub edges: Vec<GraphEdge>,
    pub sources: Vec<usize>,
}

/// The mathematical shape of a whole plan graph.
pub struct PlanGraphV {
    pub nodes: Seq<PlanNodeV>,
    pub edges: Seq<GraphEdgeV>,
    pub sources: Seq<int>,
}

impl PlanGraphV {
    /// Every edge endpoint and every source index is a node index.
    pub open spec fn wf(self) -> bool {
        &&& forall|e: int|
            0 <= e < self.edges.len() ==> 0 <= #[trigger] self.edges[e].from < self.nodes.len()
                && 0 <= self.edges[e].to < self.nodes.len()
        &&& forall|s: int|
            0 <= s < self.sources.len() ==> 0 <= #[trigger] self.sources[s] < self.nodes.len()
    }
}

impl View for PlanGraph {
    type V = PlanGraphV;

    open spec fn view(&self) -> PlanGraphV {
        PlanGraphV {
            nodes: self.nodes@.map_values(|n: PlanNode| n@),
            edges: self.edges@.map_values(|e: GraphEdge| e@),
            sources: self.sources@.map_values(|i: usize| i as int),
        }
    }
}

impl PlanGraph {
    pub fn new() -> (r: PlanGraph)
        ensures
            r@.nodes == Seq::<PlanNodeV>::empty(),
            r@.edges == Seq::<GraphEdgeV>::empty(),
            r@.sources == Seq::<int>::empty(),
            r@.wf(),
    {
        let r = PlanGraph { nodes: Vec::new(), edges: Vec::new(), sources: Vec::new() };
        proof {
            assert(r@.nodes =~= Seq::<PlanNodeV>::empty());
            assert(r@.edges =~= Seq::<GraphEdgeV>::empty());
            assert(r@.sources =~= Seq::<int>::empty());
        }
        r
    }

    pub fn node_count(&self) -> (r: usize)
        ensures
            r == self@.nodes.len(),
    {
        self.nodes.len()
    }

    pub fn edge_count(&self) -> (r: usize)
        ensures
            r == self@.edges.len(),
    {
        self.edges.len()
    }

    /// Appends a node; used only by the growth methods below.
    fn push_node(&mut self, id: String, operator: Operator) -> (idx: usize)
        ensures
            final(self)@.nodes == old(self)@.nodes.push(
                PlanNodeV { id: id@, operator: operator@ },
            ),
            final(self)@.edges == old(self)@.edges,
            final(self)@.sources == old(self)@.sources,
            idx == old(self)@.nodes.len(),
    {
        let idx = self.nodes.len();
        let ghost expected = PlanNodeV { id: id@, operator: operator@ };
        self.nodes.push(PlanNode { id, operator });
        proof {
            assert(self@.nodes =~= old(self)@.nodes.push(expected));
        }
        idx
    }

    /// Appends an edge labeled `key -> value`.
    fn push_edge(&mut self, from: usize, to: usize, key: &str, value: &str)
        ensures
            final(self)@.nodes == old(self)@.nodes,
            final(self)@.edges == old(self)@.edges.push(
                GraphEdgeV { from: from as int, to: to as int, key: key@, value: value@ },
            ),
            final(self)@.sources == old(self)@.sources,
    {
        let edge = GraphEdge {
            from,
            to,
            edge: PlanEdge { key: key.to_owned(), value: value.to_owned() },
        };
        let ghost expected = edge@;
        self.edges.push(edge);
        proof {
            assert(self@.edges =~= old(self)@.edges.push(expected));
        }
    }
}

// Plan states in unit structs.

#[derive(Debug, Clone, Copy)]
pub struct Init {}

#[derive(Debug, Clone, Copy)]
pub struct Processed {}

#[derive(Debug, Clone, Copy)]
pub struct Serialized {}

#[derive(Debug, Clone, Copy)]
pub struct Sunk {}

/// A stage-typed handle over the plan graph: remembers only its own frontier
/// node. Handles are cheap; every growth method returns a new handle at the
/// next stage over the same arena.
#[derive(Debug, Clone, Copy)]
pub struct Plan<T> {
    pub _t: T,
    pub last_node: Option<usize>,
}

impl<T> Plan<T> {
    /// The handle's frontier, if any, is a node of `g`.
    pub open spec fn wf_in(self, g: PlanGraph) -> bool {
        match self.last_node {
            Some(i) => i < g@.nodes.len(),
            None => true,
        }
    }
}

impl Plan<()> {
    /// A fresh handle in the initial stage; pair it with a fresh `PlanGraph`.
    pub fn new() -> (r: Plan<Init>)
        ensures
            r.last_node is None,
    {
        Plan { _t: Init {  }, last_node: None }
    }
}

impl Plan<Init> {
    /// Creates a source node with no incoming edge, registers it in the
    /// source list, and returns a handle whose frontier is the new node.
    pub fn source(&self, g: &mut PlanGraph, source: Source) -> (r: Plan<Processed>)
        requires
            old(g)@.wf(),
        ensures
            final(g)@.nodes == old(g)@.nodes.push(
                PlanNodeV {
                    id: node_id(("Source")@, old(g)@.nodes.len() as nat),
                    operator: (Operator::SourceOp { config: source })@,
                },
            ),
            final(g)@.edges == old(g)@.edges,
            final(g)@.sources == old(g)@.sources.push(old(g)@.nodes.len() as int),
            final(g)@.wf(),
            r.last_node is Some,
            r.last_node.unwrap() as int == old(g)@.nodes.len() as int,
            r.wf_in(*final(g)),
    {
        let idx = g.nodes.len();
        let id = node_id_string("Source", idx);
        let ghost before = g@;
        let _ = g.push_node(id, Operator::SourceOp { config: source });
        g.sources.push(idx);
        proof {
            assert(g@.sources =~= before.sources.push(idx as int));
        }
        Plan { _t: Processed {  }, last_node: Some(idx) }
    }
}

impl Plan<Processed> {
    /// Adds `operator` as a new node with an edge from the current frontier.
    /// Fails with `EmptyPlan` on a graph with no nodes,
    /// `DanglingApplyOperator` without a frontier, and `WrongApplyOperator`
    /// for operators that have dedicated entry points.
    pub fn apply(&self, g: &mut PlanGraph, operator: Operator, node_id_prefix: &str) -> (r:
        Result<Plan<Processed>, PlanError>)
        requires
            old(g)@.wf(),
            self.wf_in(*old(g)),
        ensures
            final(g)@.wf(),
            match r {
                Ok(p) => {
                    &&& old(g)@.nodes.len() > 0
                    &&& self.last_node is Some
                    &&& !spec_reserved_for_dedicated_entry(operator)
                    &&& final(g)@.nodes == old(g)@.nodes.push(
                        PlanNodeV {
                            id: node_id(node_id_prefix@, old(g)@.nodes.len() as nat),
                            operator: operator@,
                        },
                    )
                    &&& final(g)@.edges == old(g)@.edges.push(
                        mapping_edge(
                            self.last_node.unwrap() as int,
                            old(g)@.nodes.len() as int,
                        ),
                    )
                    &&& final(g)@.sources == old(g)@.sources
                    &&& p.last_node is Some
                    &&& p.last_node.unwrap() as int == old(g)@.nodes.len() as int
                    &&& p.wf_in(*final(g))
                },
                Err(e) => {
                    &&& final(g)@ == old(g)@
                    &&& (e == PlanError::EmptyPlan <==> old(g)@.nodes.len() == 0)
                    &&& (e == PlanError::DanglingApplyOperator <==> old(g)@.nodes.len() > 0
                        && self.last_node is None)
                    &&& (e == PlanError::WrongApplyOperator <==> old(g)@.nodes.len() > 0
                        && self.last_node is Some && spec_reserved_for_dedicated_entry(operator))
                    &&& (e is EmptyPlan || e is DanglingApplyOperator || e is WrongApplyOperator)
                },
            },
    {
        if g.node_count() == 0 {
            return Err(PlanError::EmptyPlan);
        }
        let prev = match self.last_node {
            Some(i) => i,
            None => {
                return Err(PlanError::DanglingApplyOperator);
            },
        };
        match &operator {
            Operator::SourceOp { .. } => {
                return Err(PlanError::WrongApplyOperator);
            },
            Operator::TargetOp { .. } => {
                return Err(PlanError::WrongApplyOperator);
            },
            Operator::SerializerOp { .. } => {
                return Err(PlanError::WrongApplyOperator);
            },
            _ => (),
        }
        let idx = g.nodes.len();
        let id = node_id_string(node_id_prefix, idx);
        let _ = g.push_node(id, operator);
        g.push_edge(prev, idx, "()", "MappingTuple");
        Ok(Plan { _t: Processed {  }, last_node: Some(idx) })
    }

    /// Adds a serializer node with an edge from the current frontier,
    /// yielding a handle in the serialized stage.
    pub fn serialize(&self, g: &mut PlanGraph, serializer: Serializer) -> (r: Result<
        Plan<Serialized>,
        PlanError,
    >)
        requires
            old(g)@.wf(),
            self.wf_in(*old(g)),
        ensures
            final(g)@.wf(),
            match r {
                Ok(p) => {
                    &&& old(g)@.nodes.len() > 0
                    &&& self.last_node is Some
                    &&& final(g)@.nodes == old(g)@.nodes.push(
                        PlanNodeV {
                            id: node_id(("Serialize")@, old(g)@.nodes.len() as nat),
                            operator: (Operator::SerializerOp { config: serializer })@,
                        },
                    )
                    &&& final(g)@.edges == old(g)@.edges.push(
                        mapping_edge(
                            self.last_node.unwrap() as int,
                            old(g)@.nodes.len() as int,
                        ),
                    )
                    &&& final(g)@.sources == old(g)@.sources
                    &&& p.last_node is Some
                    &&& p.last_node.unwrap() as int == old(g)@.nodes.len() as int
                    &&& p.wf_in(*final(g))
                },
                Err(e) => {
                    &&& final(g)@ == old(g)@
                    &&& (e == PlanError::EmptyPlan <==> old(g)@.nodes.len() == 0)
                    &&& (e == PlanError::DanglingApplyOperator <==> old(g)@.nodes.len() > 0
                        && self.last_node is None)
                    &&& (e is EmptyPlan || e is DanglingApplyOperator)
                },
            },
    {
        if g.node_count() == 0 {
            return Err(PlanError::EmptyPlan);
        }
        let prev = match self.last_node {
            Some(i) => i,
            None => {
                return Err(PlanError::DanglingApplyOperator);
            },
        };
        let idx = g.nodes.len();
        let id = node_id_string("Serialize", idx);
        let _ = g.push_node(id, Operator::SerializerOp { config: serializer });
        g.push_edge(prev, idx, "()", "MappingTuple");
        proof {
            let ghost before = old(g)@;
            assert(prev < before.nodes.len());
            assert(g@.nodes.len() == before.nodes.len() + 1);
            assert(g@.edges == before.edges.push(mapping_edge(prev as int, idx as int)));
            assert(g@.sources == before.sources);
            assert forall|e: int| 0 <= e < g@.edges.len() implies 0 <= #[trigger] g@.edges[e].from
                < g@.nodes.len() && 0 <= g@.edges[e].to < g@.nodes.len() by {
                if e < before.edges.len() {
                    assert(g@.edges[e] == before.edges[e]);
                    assert(0 <= before.edges[e].from < before.nodes.len());
                } else {
                    assert(g@.edges[e] == mapping_edge(prev as int, idx as int));
                }
            }
        }
        Ok(Plan { _t: Serialized {  }, last_node: Some(idx) })
    }
}

impl Plan<Serialized> {
    /// Adds the terminal target node with an edge from the serializer.
    /// Fails with `EmptyPlan` without a frontier.
    pub fn sink(&self, g: &mut PlanGraph, sink: Target) -> (r: Result<Plan<Sunk>, PlanError>)
        requires
            old(g)@.wf(),
            self.wf_in(*old(g)),
        ensures
            final(g)@.wf(),
            match r {
                Ok(p) => {
                    &&& self.last_node is Some
                    &&& final(g)@.nodes == old(g)@.nodes.push(
                        PlanNodeV {
                            id: node_id(("Sink")@, old(g)@.nodes.len() as nat),
                            operator: (Operator::TargetOp { config: sink })@,
                        },
                    )
                    &&& final(g)@.edges == old(g)@.edges.push(
                        serialized_edge(
                            self.last_node.unwrap() as int,
                            old(g)@.nodes.len() as int,
                        ),
                    )
                    &&& final(g)@.sources == old(g)@.sources
                    &&& p.last_node is Some
                    &&& p.last_node.unwrap() as int == old(g)@.nodes.len() as int
                    &&& p.wf_in(*final(g))
                },
                Err(e) => {
                    &&& final(g)@ == old(g)@
                    &&& e == PlanError::EmptyPlan
                    &&& self.last_node is None
                },
            },
    {
        let prev = match self.last_node {
            Some(i) => i,
            None => {
                return Err(PlanError::EmptyPlan);
            },
        };
        let idx = g.nodes.len();
        let id = node_id_string("Sink", idx);
        let _ = g.push_node(id, Operator::TargetOp { config: sink });
        g.push_edge(prev, idx, "()", "Serialized Format");
        Ok(Plan { _t: Sunk {  }, last_node: Some(idx) })
    }
}

/// A join under construction: both frontiers are fixed, the alias and the
/// key lists are still owed, in that order.
pub struct JoinPlanBuilder {
    pub left: usize,
    pub right: usize,
}

/// A join under construction that has its alias.
pub struct AliasedJoinPlan {
    pub left: usize,
    pub right: usize,
    pub alias: String,
}

/// A join under construction that has its alias and child attributes.
pub struct KeyedJoinPlan {
    pub left: usize,
    pub right: usize,
    pub alias: String,
    pub child_attributes: Vec<String>,
}

impl Plan<Processed> {
    /// Starts a join of this plan's frontier with `other`'s frontier.
    pub fn join(&self, g: &PlanGraph, other: &Plan<Processed>) -> (r: Result<
        JoinPlanBuilder,
        PlanError,
    >)
        ensures
            match r {
                Ok(b) => {
                    &&& g@.nodes.len() > 0
                    &&& self.last_node is Some
                    &&& other.last_node is Some
                    &&& b.left == self.last_node.unwrap()
                    &&& b.right == other.last_node.unwrap()
                },
                Err(e) => {
                    &&& (e == PlanError::EmptyPlan <==> g@.nodes.len() == 0)
                    &&& (e == PlanError::DanglingApplyOperator <==> g@.nodes.len() > 0 && (
                    self.last_node is None || other.last_node is None))
                    &&& (e is EmptyPlan || e is DanglingApplyOperator)
                },
            },
    {
        if g.node_count() == 0 {
            return Err(PlanError::EmptyPlan);
        }
        let left = match self.last_node {
            Some(i) => i,
            None => {
                return Err(PlanError::DanglingApplyOperator);
            },
        };
        let right = match other.last_node {
            Some(i) => i,
            None => {
                return Err(PlanError::DanglingApplyOperator);
            },
        };
        Ok(JoinPlanBuilder { left, right })
    }
}

impl JoinPlanBuilder {
    /// Names the joined parent fragment.
    pub fn alias(self, alias: &str) -> (r: AliasedJoinPlan)
        ensures
            r.left == self.left,
            r.right == self.right,
            r.alias@ == alias@,
    {
        AliasedJoinPlan { left: self.left, right: self.right, alias: alias.to_owned() }
    }
}

impl AliasedJoinPlan {
    /// Supplies the child-side join key attributes.
    pub fn where_by(self, child_attributes: Vec<String>) -> (r: KeyedJoinPlan)
        ensures
            r.left == self.left,
            r.right == self.right,
            r.alias == self.alias,
            r.child_attributes == child_attributes,
    {
        KeyedJoinPlan {
            left: self.left,
            right: self.right,
            alias: self.alias,
            child_attributes,
        }
    }
}

impl KeyedJoinPlan {
    /// Supplies the parent-side join key attributes and adds the join node,
    /// with edges from both frontiers, as the new frontier.
    pub fn compared_to(self, g: &mut PlanGraph, parent_attributes: Vec<String>) -> (r: Plan<
        Processed,
    >)
        requires
            old(g)@.wf(),
            self.left < old(g)@.nodes.len(),
            self.right < old(g)@.nodes.len(),
        ensures
            final(g)@.wf(),
            final(g)@.nodes == old(g)@.nodes.push(
                PlanNodeV {
                    id: node_id(("Join")@, old(g)@.nodes.len() as nat),
                    operator: OperatorV::JoinOp {
                        alias: self.alias@,
                        child_attributes: crate::attrset::strs_view(self.child_attributes@),
                        parent_attributes: crate::attrset::strs_view(parent_attributes@),
                    },
                },
            ),
            final(g)@.edges == old(g)@.edges.push(
                mapping_edge(self.left as int, old(g)@.nodes.len() as int),
            ).push(mapping_edge(self.right as int, old(g)@.nodes.len() as int)),
            final(g)@.sources == old(g)@.sources,
            r.last_node is Some,
            r.last_node.unwrap() as int == old(g)@.nodes.len() as int,
            r.wf_in(*final(g)),
    {
        let idx = g.nodes.len();
        let id = node_id_string("Join", idx);
        let op = Operator::JoinOp {
            config: crate::operators::Join {
                join_alias: self.alias,
                child_attributes: self.child_attributes,
                parent_attributes,
            },
        };
        let _ = g.push_node(id, op);
        g.push_edge(self.left, idx, "()", "MappingTuple");
        g.push_edge(self.right, idx, "()", "MappingTuple");
        Plan { _t: Processed {  }, last_node: Some(idx) }
    }
}

} // verus!
