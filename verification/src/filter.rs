//! The alert filter: the reduced hierarchy that keeps only alerting rows,
//! the nodes that still hold a row, and the groups that still hold a node.

use crate::data::{
    content_statuses, hierarchy_well_formed, node_statuses, Content, ContentView, Node, NodeView,
    Nodes, NodesView,
};
use crate::filter_laws::{hierarchy_all_alerting, lemma_filter_output_shape};
use crate::status::{aggregate, alerting, is_alert};
use vstd::prelude::*;

verus! {

/// The alerting rows of a sequence of rows, in the order they stand in.
pub open spec fn alert_contents(contents: Seq<ContentView>) -> Seq<ContentView> {
    contents.filter(|c: ContentView| alerting(c.status))
}

/// A node has an alert when at least one of its rows is alerting.
pub open spec fn node_has_alert(node: NodeView) -> bool {
    exists|i: int| 0 <= i < node.contents.len() && alerting((#[trigger] node.contents[i]).status)
}

/// What is left of a node: its alerting rows, under a status rolled up from
/// those rows.
pub open spec fn filtered_node(node: NodeView) -> NodeView {
    NodeView {
        name: node.name,
        contents: alert_contents(node.contents),
        status: aggregate(content_statuses(alert_contents(node.contents))),
    }
}

/// A node survives, reduced, exactly when it has an alert.
pub open spec fn surviving_node(node: NodeView) -> Option<NodeView> {
    if node_has_alert(node) {
        Some(filtered_node(node))
    } else {
        None
    }
}

/// The surviving nodes of a sequence of nodes, reduced, in the order they
/// stand in.
pub open spec fn filter_nodes(nodes: Seq<NodeView>) -> Seq<NodeView> {
    nodes.filter_map(|n: NodeView| surviving_node(n))
}

/// A group has an alert when at least one of its nodes has one.
pub open spec fn group_has_alert(group: NodesView) -> bool {
    exists|i: int| 0 <= i < group.nodes.len() && node_has_alert(#[trigger] group.nodes[i])
}

/// What is left of a group: its surviving nodes, under a status rolled up
/// from those nodes.
pub open spec fn filtered_group(group: NodesView) -> NodesView {
    NodesView {
        name: group.name,
        nodes: filter_nodes(group.nodes),
        status: aggregate(node_statuses(filter_nodes(group.nodes))),
    }
}

/// A group survives, reduced, exactly when it has an alert.
pub open spec fn surviving_group(group: NodesView) -> Option<NodesView> {
    if group_has_alert(group) {
        Some(filtered_group(group))
    } else {
        None
    }
}

/// The alert-only hierarchy: the surviving groups, reduced, in the order
/// they stand in.
pub open spec fn filter_hierarchy(hierarchy: Seq<NodesView>) -> Seq<NodesView> {
    hierarchy.filter_map(|g: NodesView| surviving_group(g))
}

/// Taking one more row either appends that row to the alerting rows or
/// leaves them as they were.
proof fn lemma_alert_contents_step(contents: Seq<ContentView>, i: int)
    requires
        0 <= i < contents.len(),
    ensures
        alert_contents(contents.take(i + 1)) == if alerting(contents[i].status) {
            alert_contents(contents.take(i)).push(contents[i])
        } else {
            alert_contents(contents.take(i))
        },
{
    reveal(Seq::filter);
    assert(contents.take(i + 1).drop_last() =~= contents.take(i));
}

/// Some row survives exactly when the node has an alert.
pub proof fn lemma_alert_contents_nonempty(node: NodeView)
    ensures
        alert_contents(node.contents).len() > 0 <==> node_has_alert(node),
{
    let pred = |c: ContentView| alerting(c.status);
    let kept = alert_contents(node.contents);
    if kept.len() > 0 {
        node.contents.lemma_filter_pred(pred, 0);
        assert(kept.contains(kept[0]));
        node.contents.lemma_filter_contains_rev(pred, kept[0]);
        let i = choose|i: int| 0 <= i < node.contents.len() && node.contents[i] == kept[0];
        assert(alerting(node.contents[i].status));
    }
    if node_has_alert(node) {
        let i = choose|i: int|
            0 <= i < node.contents.len() && alerting((#[trigger] node.contents[i]).status);
        node.contents.lemma_filter_contains(pred, i);
    }
}

/// Some node survives exactly when the group has an alert.
pub proof fn lemma_filter_nodes_nonempty(group: NodesView)
    ensures
        filter_nodes(group.nodes).len() > 0 <==> group_has_alert(group),
{
    lemma_filter_nodes_count(group.nodes);
}

/// No node survives exactly when no node has an alert.
proof fn lemma_filter_nodes_count(nodes: Seq<NodeView>)
    ensures
        filter_nodes(nodes).len() > 0 <==> exists|i: int|
            0 <= i < nodes.len() && node_has_alert(#[trigger] nodes[i]),
    decreases nodes.len(),
{
    if nodes.len() > 0 {
        let rest = nodes.drop_last();
        lemma_filter_nodes_count(rest);
        if filter_nodes(nodes).len() > 0 {
            if node_has_alert(nodes.last()) {
                assert(node_has_alert(nodes[nodes.len() - 1]));
            } else {
                let i = choose|i: int| 0 <= i < rest.len() && node_has_alert(#[trigger] rest[i]);
                assert(node_has_alert(nodes[i]));
            }
        }
        if exists|i: int| 0 <= i < nodes.len() && node_has_alert(#[trigger] nodes[i]) {
            let i = choose|i: int| 0 <= i < nodes.len() && node_has_alert(#[trigger] nodes[i]);
            if i < nodes.len() - 1 {
                assert(node_has_alert(rest[i]));
            }
        }
    }
}

/// Taking one more node either appends what is left of that node to the
/// surviving nodes or leaves them as they were.
proof fn lemma_filter_nodes_step(nodes: Seq<NodeView>, i: int)
    requires
        0 <= i < nodes.len(),
    ensures
        filter_nodes(nodes.take(i + 1)) == if node_has_alert(nodes[i]) {
            filter_nodes(nodes.take(i)).push(filtered_node(nodes[i]))
        } else {
            filter_nodes(nodes.take(i))
        },
{
    assert(nodes.take(i + 1).drop_last() =~= nodes.take(i));
    if node_has_alert(nodes[i]) {
        assert(filter_nodes(nodes.take(i)) + seq![filtered_node(nodes[i])] =~= filter_nodes(
            nodes.take(i),
        ).push(filtered_node(nodes[i])));
    }
}

/// Taking one more group either appends what is left of that group to the
/// surviving groups or leaves them as they were.
proof fn lemma_filter_hierarchy_step(hierarchy: Seq<NodesView>, i: int)
    requires
        0 <= i < hierarchy.len(),
    ensures
        filter_hierarchy(hierarchy.take(i + 1)) == if group_has_alert(hierarchy[i]) {
            filter_hierarchy(hierarchy.take(i)).push(filtered_group(hierarchy[i]))
        } else {
            filter_hierarchy(hierarchy.take(i))
        },
{
    assert(hierarchy.take(i + 1).drop_last() =~= hierarchy.take(i));
    if group_has_alert(hierarchy[i]) {
        assert(filter_hierarchy(hierarchy.take(i)) + seq![filtered_group(hierarchy[i])]
            =~= filter_hierarchy(hierarchy.take(i)).push(filtered_group(hierarchy[i])));
    }
}

/// Copies the alerting rows of a list of rows, in order.
pub fn alerting_contents(contents: &Vec<Content>) -> (kept: Vec<Content>)
    ensures
        kept.deep_view() == alert_contents(contents.deep_view()),
{
    let mut kept: Vec<Content> = Vec::new();
    let mut i: usize = 0;
    assert(contents.deep_view().take(0) =~= Seq::<ContentView>::empty());
    assert(kept.deep_view() =~= alert_contents(contents.deep_view().take(0))) by {
        reveal(Seq::filter);
    }
    while i < contents.len()
        invariant
            i <= contents.len(),
            kept.deep_view() == alert_contents(contents.deep_view().take(i as int)),
        decreases contents.len() - i,
    {
        let ghost before = kept.deep_view();
        if is_alert(&contents[i].status) {
            kept.push(contents[i].clone());
            assert(kept.deep_view() =~= before.push(contents[i as int].deep_view()));
        }
        proof {
            lemma_alert_contents_step(contents.deep_view(), i as int);
        }
        i += 1;
    }
    assert(contents.deep_view().take(i as int) =~= contents.deep_view());
    kept
}

/// Reduces the nodes of a group to those that hold an alerting row, each
/// with only its alerting rows and a status rolled up from them.
pub fn filter_node_alert(nodes: &Nodes) -> (kept: Vec<Node>)
    ensures
        kept.deep_view() == filter_nodes(nodes.deep_view().nodes),
{
    let ghost all = nodes.deep_view().nodes;
    let mut kept: Vec<Node> = Vec::new();
    let mut i: usize = 0;
    assert(all.take(0) =~= Seq::<NodeView>::empty());
    assert(kept.deep_view() =~= filter_nodes(all.take(0)));
    while i < nodes.nodes.len()
        invariant
            i <= nodes.nodes.len(),
            all == nodes.deep_view().nodes,
            kept.deep_view() == filter_nodes(all.take(i as int)),
        decreases nodes.nodes.len() - i,
    {
        let ghost before = kept.deep_view();
        let node = &nodes.nodes[i];
        let filtered_contents = alerting_contents(&node.contents);
        proof {
            lemma_alert_contents_nonempty(all[i as int]);
            lemma_filter_nodes_step(all, i as int);
        }
        if !filtered_contents.is_empty() {
            let reduced = Node::new(node.name, filtered_contents);
            kept.push(reduced);
            assert(kept.deep_view() =~= before.push(filtered_node(all[i as int])));
        }
        i += 1;
    }
    assert(all.take(i as int) =~= all);
    kept
}

/// Reduces a snapshot to its alerting branches: the groups that hold a
/// surviving node, each with only its surviving nodes and a status rolled up
/// from them. Whatever the input, the result holds nothing but alerting
/// rows and is well formed.
pub fn filter_nodes_alert(nodes_info: &Vec<Nodes>) -> (filtered: Vec<Nodes>)
    ensures
        filtered.deep_view() == filter_hierarchy(nodes_info.deep_view()),
        hierarchy_all_alerting(filtered.deep_view()),
        hierarchy_well_formed(filtered.deep_view()),
{
    let ghost all = nodes_info.deep_view();
    let mut filtered: Vec<Nodes> = Vec::new();
    let mut i: usize = 0;
    assert(all.take(0) =~= Seq::<NodesView>::empty());
    assert(filtered.deep_view() =~= filter_hierarchy(all.take(0)));
    while i < nodes_info.len()
        invariant
            i <= nodes_info.len(),
            all == nodes_info.deep_view(),
            filtered.deep_view() == filter_hierarchy(all.take(i as int)),
        decreases nodes_info.len() - i,
    {
        let ghost before = filtered.deep_view();
        let group = &nodes_info[i];
        let filtered_nodes = filter_node_alert(group);
        proof {
            lemma_filter_nodes_nonempty(all[i as int]);
            lemma_filter_hierarchy_step(all, i as int);
        }
        if !filtered_nodes.is_empty() {
            let reduced = Nodes::new(group.name.clone(), filtered_nodes);
            filtered.push(reduced);
            assert(filtered.deep_view() =~= before.push(filtered_group(all[i as int])));
        }
        i += 1;
    }
    assert(all.take(i as int) =~= all);
    proof {
        lemma_filter_output_shape(all);
    }
    filtered
}

} // verus!
