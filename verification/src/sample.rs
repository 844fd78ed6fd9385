//! Randomly drawn demonstration snapshots. The draws come from the `rand`
//! crate; everything built on them is verified for every outcome.

use crate::data::{
    hierarchy_well_formed, node_statuses, Content, ContentView, Node, NodeType, NodeView, Nodes,
    NodesInfo, NodesView,
};
use crate::status::{aggregate, StatCode};
use vstd::prelude::*;

verus! {

/// The character of a decimal digit.
pub open spec fn digit(d: nat) -> char
    recommends
        d < 10,
{
    seq!['0', '1', '2', '3', '4', '5', '6', '7', '8', '9'][d as int]
}

/// A number written in decimal, without leading zeros.
pub open spec fn decimal(i: nat) -> Seq<char>
    decreases i,
{
    if i < 10 {
        seq![digit(i)]
    } else {
        decimal(i / 10).push(digit(i % 10))
    }
}

/// A number written in decimal, padded with a zero to at least two digits.
pub open spec fn two_digits(i: nat) -> Seq<char> {
    if i < 10 {
        seq!['0', digit(i)]
    } else {
        decimal(i)
    }
}

/// A prefix, a space, and a number in at least two digits.
pub open spec fn numbered(prefix: Seq<char>, i: nat) -> Seq<char> {
    prefix + seq![' '] + two_digits(i)
}

/// The caption that goes with a status in a sample row.
pub open spec fn caption_of(status: StatCode) -> Seq<char> {
    match status {
        StatCode::Ng => "stopped"@,
        StatCode::Warning => "driving in degraded condition"@,
        StatCode::Okay => "running..."@,
    }
}

/// The sample row at place `i` with the given status.
pub open spec fn sample_content(i: nat, status: StatCode) -> ContentView {
    ContentView { index: numbered("device"@, i), caption: caption_of(status), status }
}

/// Between 20 and 49 rows, each the sample row of its place for some status.
pub open spec fn sample_contents(contents: Seq<ContentView>) -> bool {
    &&& 20 <= contents.len() < 50
    &&& forall|i: int|
        0 <= i < contents.len() ==> #[trigger] contents[i] == sample_content(
            i as nat,
            contents[i].status,
        )
}

/// A well-formed node of sample rows.
pub open spec fn sample_node(node: NodeView) -> bool {
    sample_contents(node.contents) && node.well_formed()
}

/// The kinds of the nodes of a sample group: always A, B and C, then D and
/// E as drawn.
pub open spec fn node_kinds(with_d: bool, with_e: bool) -> Seq<NodeType> {
    seq![NodeType::NodeA, NodeType::NodeB, NodeType::NodeC] + (if with_d {
        seq![NodeType::NodeD]
    } else {
        Seq::empty()
    }) + (if with_e {
        seq![NodeType::NodeE]
    } else {
        Seq::empty()
    })
}

/// The kinds of a sequence of nodes, in order.
pub open spec fn kinds_of(nodes: Seq<NodeView>) -> Seq<NodeType> {
    nodes.map_values(|n: NodeView| n.name)
}

/// Sample nodes whose kinds are those of a sample group.
pub open spec fn sample_nodes(nodes: Seq<NodeView>) -> bool {
    &&& exists|with_d: bool, with_e: bool| kinds_of(nodes) == #[trigger] node_kinds(with_d, with_e)
    &&& forall|i: int| 0 <= i < nodes.len() ==> sample_node(#[trigger] nodes[i])
}

/// The sample group at place `i`: numbered name, sample nodes, derived
/// status.
pub open spec fn sample_group(i: nat, group: NodesView) -> bool {
    &&& group.name == numbered("Node Log"@, i)
    &&& sample_nodes(group.nodes)
    &&& group.status == aggregate(node_statuses(group.nodes))
}

/// Between 10 and 49 groups, each the sample group of its place.
pub open spec fn sample_hierarchy(hierarchy: Seq<NodesView>) -> bool {
    &&& 10 <= hierarchy.len() < 50
    &&& forall|i: int|
        0 <= i < hierarchy.len() ==> sample_group(i as nat, #[trigger] hierarchy[i])
}

/// Every sample hierarchy is well formed.
pub proof fn lemma_sample_hierarchy_well_formed(hierarchy: Seq<NodesView>)
    requires
        sample_hierarchy(hierarchy),
    ensures
        hierarchy_well_formed(hierarchy),
{
    assert forall|i: int| 0 <= i < hierarchy.len() implies (#[trigger] hierarchy[i])
        .well_formed() by {
        assert(sample_group(i as nat, hierarchy[i]));
    }
}

/// Draws a number with `rand::random_range(low..high)`. Believed of it:
/// the number lies in the half-open range. An empty range would panic and
/// is excluded.
#[verifier::external_body]
fn random_below(low: usize, high: usize) -> (n: usize)
    requires
        low < high,
    ensures
        low <= n < high,
{
    rand::random_range(low..high)
}

/// Draws a boolean with `rand::random_ratio(numerator, denominator)`, true
/// with that probability. Believed of it: the draw is certain when the
/// ratio is 0 or 1. A zero denominator or a ratio above 1 would panic and is
/// excluded.
#[verifier::external_body]
fn p_true(numerator: u32, denominator: u32) -> (outcome: bool)
    requires
        0 < denominator,
        numerator <= denominator,
    ensures
        numerator == denominator ==> outcome,
        numerator == 0 ==> !outcome,
{
    rand::random_ratio(numerator, denominator)
}

/// Writes `prefix`, a space and `i` with std's `format!`, the number
/// zero-padded to two digits. Believed of it: the text is exactly that.
#[verifier::external_body]
fn numbered_label(prefix: &str, i: usize) -> (label: String)
    ensures
        label@ == numbered(prefix@, i as nat),
{
    format!("{} {:02}", prefix, i)
}

/// The sample row at place `i` with the given status: the caption follows
/// from the status.
pub fn dummy_content(i: usize, status: StatCode) -> (content: Content)
    ensures
        content.deep_view() == sample_content(i as nat, status),
{
    let caption = match status {
        StatCode::Ng => "stopped".to_string(),
        StatCode::Warning => "driving in degraded condition".to_string(),
        StatCode::Okay => "running...".to_string(),
    };
    Content { index: numbered_label("device", i), caption, status }
}

/// Draws the rows of one node: a random number of them, almost all
/// running, now and then one stopped or degraded.
pub fn dummy_contents() -> (contents: Vec<Content>)
    ensures
        sample_contents(contents.deep_view()),
{
    let max: usize = random_below(20, 50);
    let mut contents: Vec<Content> = Vec::new();
    let mut i: usize = 0;
    while i < max
        invariant
            i <= max,
            contents.len() == i,
            forall|k: int|
                0 <= k < i ==> #[trigger] contents[k].deep_view() == sample_content(
                    k as nat,
                    contents[k].status,
                ),
        decreases max - i,
    {
        let status = if p_true(1, 2000) {
            StatCode::Ng
        } else if p_true(1, 2000) {
            StatCode::Warning
        } else {
            StatCode::Okay
        };
        contents.push(dummy_content(i, status));
        i += 1;
    }
    contents
}

/// Draws one node of the given kind.
pub fn dummy_node(name: NodeType) -> (node: Node)
    ensures
        node.name == name,
        sample_node(node.deep_view()),
{
    Node::new(name, dummy_contents())
}

/// Draws the nodes of one group: A, B and C always, D and E by chance.
pub fn dummy_nodes() -> (nodes: Vec<Node>)
    ensures
        sample_nodes(nodes.deep_view()),
{
    let mut nodes: Vec<Node> = Vec::new();
    nodes.push(dummy_node(NodeType::NodeA));
    nodes.push(dummy_node(NodeType::NodeB));
    nodes.push(dummy_node(NodeType::NodeC));
    let with_d = p_true(2, 5);
    if with_d {
        nodes.push(dummy_node(NodeType::NodeD));
    }
    let with_e = p_true(1, 5);
    if with_e {
        nodes.push(dummy_node(NodeType::NodeE));
    }
    assert(kinds_of(nodes.deep_view()) =~= node_kinds(with_d, with_e));
    nodes
}

/// Draws a whole snapshot: a random number of numbered groups.
pub fn dummy_nodes_info() -> (nodes_info: NodesInfo)
    ensures
        sample_hierarchy(nodes_info.deep_view()),
{
    let max: usize = random_below(10, 50);
    let mut nodes_info: NodesInfo = Vec::new();
    let mut i: usize = 0;
    while i < max
        invariant
            i <= max,
            nodes_info.len() == i,
            forall|k: int|
                0 <= k < i ==> sample_group(k as nat, #[trigger] nodes_info[k].deep_view()),
        decreases max - i,
    {
        let nodes = dummy_nodes();
        nodes_info.push(Nodes::new(numbered_label("Node Log", i), nodes));
        i += 1;
    }
    nodes_info
}

/// A fresh demonstration snapshot, well formed whatever was drawn.
pub fn sample_nodes_info() -> (nodes_info: NodesInfo)
    ensures
        sample_hierarchy(nodes_info.deep_view()),
        hierarchy_well_formed(nodes_info.deep_view()),
{
    let nodes_info = dummy_nodes_info();
    proof {
        lemma_sample_hierarchy_well_formed(nodes_info.deep_view());
    }
    nodes_info
}

} // verus!
