//! The graph that a caller submits: nodes, and the connections between them.

use vstd::prelude::*;

verus! {

/// A JSON document, as `serde_json` holds it. Nothing inside it is visible to
/// the verifier; the `config` module reads it.
#[verifier::external_type_specification]
#[verifier::external_body]
pub struct ExJsonValue(serde_json::Value);

/// One processing step.
#[derive(Debug)]
pub struct NodeData {
    /// The node's identity; no two nodes of a pipeline share it.
    pub id: String,
    /// The tag that selects how the node is dispatched.
    pub node_type: String,
    /// The node's own settings, whose shape depends on `node_type`.
    pub data: serde_json::Value,
}

/// A directed edge: the output of `from` feeds the input `to_handle` of `to`.
#[derive(Debug)]
pub struct ConnectionData {
    pub id: String,
    pub from: String,
    pub to: String,
    pub from_handle: String,
    pub to_handle: String,
}

/// A whole pipeline, submitted at once and read-only for the run.
#[derive(Debug)]
pub struct PipelineData {
    pub nodes: Vec<NodeData>,
    pub connections: Vec<ConnectionData>,
}

/// The ids of `nodes`, in their order.
pub open spec fn ids_of(nodes: Seq<NodeData>) -> Seq<Seq<char>> {
    Seq::new(nodes.len(), |i: int| nodes[i].id@)
}

/// `earlier` stands at a smaller index of `order` than `later`.
pub open spec fn precedes(order: Seq<Seq<char>>, earlier: Seq<char>, later: Seq<char>) -> bool {
    exists|i: int, j: int|
        0 <= i < j < order.len() && #[trigger] order[i] == earlier && #[trigger] order[j] == later
}

impl PipelineData {
    /// The ids of the nodes, in the order in which the pipeline lists them.
    pub open spec fn node_ids(&self) -> Seq<Seq<char>> {
        ids_of(self.nodes@)
    }

    /// Some node carries this id.
    pub open spec fn has_node(&self, id: Seq<char>) -> bool {
        self.node_ids().contains(id)
    }

    /// No two nodes share an id.
    pub open spec fn unique_ids(&self) -> bool {
        self.node_ids().no_duplicates()
    }

    /// Every connection that leads to a node also comes from one.
    pub open spec fn sources_exist(&self) -> bool {
        forall|c: int|
            0 <= c < self.connections@.len() && self.has_node(
                (#[trigger] self.connections@[c]).to@,
            ) ==> self.has_node(self.connections@[c].from@)
    }

    /// `walk` names connections that run in a circle through nodes of the
    /// pipeline: each leads to the node that the next one comes from, and the
    /// last leads to the node that the first comes from.
    pub open spec fn is_cycle(&self, walk: Seq<int>) -> bool {
        &&& walk.len() > 0
        &&& forall|k: int| 0 <= k < walk.len() ==> 0 <= #[trigger] walk[k] < self.connections@.len()
        &&& forall|k: int|
            0 <= k < walk.len() ==> self.has_node(self.connections@[#[trigger] walk[k]].to@)
        &&& forall|k: int|
            0 <= k < walk.len() - 1 ==> self.connections@[#[trigger] walk[k]].to@
                == self.connections@[walk[k + 1]].from@
        &&& self.connections@[walk[walk.len() - 1]].to@ == self.connections@[walk[0]].from@
    }

    /// Some connections run in a circle.
    pub open spec fn has_cycle(&self) -> bool {
        exists|walk: Seq<int>| self.is_cycle(walk)
    }

    /// The pipeline has an execution order: no two nodes share an id, every
    /// connection into a node comes from a node, and no connections run in a
    /// circle.
    pub open spec fn can_be_ordered(&self) -> bool {
        self.unique_ids() && self.sources_exist() && !self.has_cycle()
    }

    /// `order` lists every node id exactly once, and for every connection
    /// that leads to a node, the id it comes from stands before the id it
    /// leads to. A connection that leads to no node of the pipeline binds
    /// nothing; one that comes from no node of the pipeline cannot be met.
    pub open spec fn is_execution_order(&self, order: Seq<Seq<char>>) -> bool {
        &&& order.len() == self.nodes@.len()
        &&& order.no_duplicates()
        &&& forall|i: int| 0 <= i < order.len() ==> self.has_node(#[trigger] order[i])
        &&& forall|k: int|
            0 <= k < self.nodes@.len() ==> order.contains(#[trigger] self.nodes@[k].id@)
        &&& forall|c: int|
            0 <= c < self.connections@.len() && self.has_node(
                (#[trigger] self.connections@[c]).to@,
            ) ==> precedes(order, self.connections@[c].from@, self.connections@[c].to@)
    }
}

} // verus!
