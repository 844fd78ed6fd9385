//! The three-level hierarchy: groups of nodes of content rows, with the
//! mathematical value of each level and the rule that ties a parent's status
//! to its children.

pub use crate::filter::{filter_node_alert, filter_nodes_alert};
pub use crate::sample::sample_nodes_info;
pub use crate::status::StatCode;
use crate::status::{aggregate, aggregate_status};
use vstd::prelude::*;

verus! {

/// The closed set of node kinds.
#[derive(Clone, Copy, Debug, PartialEq, Eq, Structural)]
pub enum NodeType {
    NodeA,
    NodeB,
    NodeC,
    NodeD,
    NodeE,
}

/// A leaf record: one monitored item with its own status.
#[derive(Debug, PartialEq, Eq)]
pub struct Content {
    pub index: String,
    pub caption: String,
    pub status: StatCode,
}

/// A named entity owning content rows. Its status is meant to be the
/// roll-up of the statuses of its rows.
#[derive(Debug, PartialEq, Eq)]
pub struct Node {
    pub name: NodeType,
    pub contents: Vec<Content>,
    pub status: StatCode,
}

/// A named group of nodes. Its status is meant to be the roll-up of the
/// statuses of its nodes.
#[derive(Debug, PartialEq, Eq)]
pub struct Nodes {
    pub name: String,
    pub nodes: Vec<Node>,
    pub status: StatCode,
}

/// A whole snapshot: the groups in display order.
pub type NodesInfo = Vec<Nodes>;

/// Mathematical value of a [`Content`].
pub struct ContentView {
    pub index: Seq<char>,
    pub caption: Seq<char>,
    pub status: StatCode,
}

/// Mathematical value of a [`Node`].
pub struct NodeView {
    pub name: NodeType,
    pub contents: Seq<ContentView>,
    pub status: StatCode,
}

/// Mathematical value of a [`Nodes`] group.
pub struct NodesView {
    pub name: Seq<char>,
    pub nodes: Seq<NodeView>,
    pub status: StatCode,
}

impl DeepView for Content {
    type V = ContentView;

    open spec fn deep_view(&self) -> ContentView {
        ContentView { index: self.index@, caption: self.caption@, status: self.status }
    }
}

impl DeepView for Node {
    type V = NodeView;

    open spec fn deep_view(&self) -> NodeView {
        NodeView { name: self.name, contents: self.contents.deep_view(), status: self.status }
    }
}

impl DeepView for Nodes {
    type V = NodesView;

    open spec fn deep_view(&self) -> NodesView {
        NodesView { name: self.name@, nodes: self.nodes.deep_view(), status: self.status }
    }
}

/// The statuses of a sequence of content rows, in order.
pub open spec fn content_statuses(contents: Seq<ContentView>) -> Seq<StatCode> {
    contents.map_values(|c: ContentView| c.status)
}

/// The statuses of a sequence of nodes, in order.
pub open spec fn node_statuses(nodes: Seq<NodeView>) -> Seq<StatCode> {
    nodes.map_values(|n: NodeView| n.status)
}

impl NodeView {
    /// The node's status is the roll-up of its rows.
    pub open spec fn well_formed(self) -> bool {
        self.status == aggregate(content_statuses(self.contents))
    }
}

impl NodesView {
    /// Every node is well formed and the group's status is the roll-up of
    /// its nodes.
    pub open spec fn well_formed(self) -> bool {
        &&& forall|i: int| 0 <= i < self.nodes.len() ==> (#[trigger] self.nodes[i]).well_formed()
        &&& self.status == aggregate(node_statuses(self.nodes))
    }
}

/// Every group of a snapshot is well formed.
pub open spec fn hierarchy_well_formed(hierarchy: Seq<NodesView>) -> bool {
    forall|i: int| 0 <= i < hierarchy.len() ==> (#[trigger] hierarchy[i]).well_formed()
}

impl Clone for Content {
    fn clone(&self) -> (copy: Self)
        ensures
            copy.deep_view() == self.deep_view(),
    {
        Content {
            index: self.index.clone(),
            caption: self.caption.clone(),
            status: self.status,
        }
    }
}

impl Clone for Node {
    fn clone(&self) -> (copy: Self)
        ensures
            copy.deep_view() == self.deep_view(),
    {
        let contents = self.contents.clone();
        assert(contents.deep_view() =~= self.contents.deep_view());
        Node { name: self.name, contents, status: self.status }
    }
}

impl Clone for Nodes {
    fn clone(&self) -> (copy: Self)
        ensures
            copy.deep_view() == self.deep_view(),
    {
        let nodes = self.nodes.clone();
        assert(nodes.deep_view() =~= self.nodes.deep_view());
        Nodes { name: self.name.clone(), nodes, status: self.status }
    }
}

/// The statuses of the rows of a node, in order.
pub fn statuses_of_contents(contents: &Vec<Content>) -> (statuses: Vec<StatCode>)
    ensures
        statuses@ == content_statuses(contents.deep_view()),
{
    let mut statuses: Vec<StatCode> = Vec::new();
    let mut i: usize = 0;
    while i < contents.len()
        invariant
            i <= contents.len(),
            statuses.len() == i,
            forall|k: int| 0 <= k < i ==> statuses[k] == contents[k].status,
        decreases contents.len() - i,
    {
        statuses.push(contents[i].status);
        i += 1;
    }
    assert(statuses@ =~= content_statuses(contents.deep_view()));
    statuses
}

/// The statuses of the nodes of a group, in order.
pub fn statuses_of_nodes(nodes: &Vec<Node>) -> (statuses: Vec<StatCode>)
    ensures
        statuses@ == node_statuses(nodes.deep_view()),
{
    let mut statuses: Vec<StatCode> = Vec::new();
    let mut i: usize = 0;
    while i < nodes.len()
        invariant
            i <= nodes.len(),
            statuses.len() == i,
            forall|k: int| 0 <= k < i ==> statuses[k] == nodes[k].status,
        decreases nodes.len() - i,
    {
        statuses.push(nodes[i].status);
        i += 1;
    }
    assert(statuses@ =~= node_statuses(nodes.deep_view()));
    statuses
}

impl Node {
    /// Builds a node whose status is derived from its rows.
    pub fn new(name: NodeType, contents: Vec<Content>) -> (node: Node)
        ensures
            node.deep_view() == (NodeView {
                name,
                contents: contents.deep_view(),
                status: aggregate(content_statuses(contents.deep_view())),
            }),
            node.deep_view().well_formed(),
    {
        let statuses = statuses_of_contents(&contents);
        let status = aggregate_status(statuses.as_slice());
        Node { name, contents, status }
    }
}

impl Nodes {
    /// Builds a group whose status is derived from its nodes.
    pub fn new(name: String, nodes: Vec<Node>) -> (group: Nodes)
        ensures
            group.deep_view() == (NodesView {
                name: name@,
                nodes: nodes.deep_view(),
                status: aggregate(node_statuses(nodes.deep_view())),
            }),
            (forall|i: int|
                0 <= i < nodes.len() ==> (#[trigger] nodes[i]).deep_view().well_formed())
                ==> group.deep_view().well_formed(),
    {
        let statuses = statuses_of_nodes(&nodes);
        let status = aggregate_status(statuses.as_slice());
        Nodes { name, nodes, status }
    }
}

} // verus!
