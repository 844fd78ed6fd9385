//! What holds of the alert filter: who survives and where, that survivors
//! keep their status, what the output looks like, and that filtering twice
//! is filtering once.

use crate::data::{
    content_statuses, hierarchy_well_formed, node_statuses, ContentView, NodeView, NodesView,
};
use crate::filter::{
    alert_contents, filter_hierarchy, filter_nodes, filtered_group, filtered_node,
    group_has_alert, lemma_alert_contents_nonempty, lemma_filter_nodes_nonempty, node_has_alert,
    surviving_group, surviving_node,
};
use crate::seq_facts::{
    kept_before, lemma_filter_all, lemma_filter_map_fixed, lemma_filter_map_origin,
    lemma_filter_map_place, lemma_kept_before_monotone,
};
use crate::status::{aggregate, alerting, lemma_aggregate_ignores_okay, StatCode};
use vstd::prelude::*;

verus! {

/// Number of surviving groups among the first `g` groups of a hierarchy.
pub open spec fn survivors_before(hierarchy: Seq<NodesView>, g: int) -> nat {
    kept_before(hierarchy, |x: NodesView| surviving_group(x), g)
}

/// Number of surviving nodes among the first `n` nodes of a sequence.
pub open spec fn surviving_nodes_before(nodes: Seq<NodeView>, n: int) -> nat {
    kept_before(nodes, |x: NodeView| surviving_node(x), n)
}

/// A group has an alert exactly when some row of some node of it is
/// alerting.
pub proof fn lemma_group_alert_is_leaf_alert(group: NodesView)
    ensures
        group_has_alert(group) <==> exists|n: int, c: int|
            0 <= n < group.nodes.len() && 0 <= c < group.nodes[n].contents.len() && alerting(
                (#[trigger] group.nodes[n].contents[c]).status,
            ),
{
    if group_has_alert(group) {
        let n = choose|n: int|
            0 <= n < group.nodes.len() && node_has_alert(#[trigger] group.nodes[n]);
        let c = choose|c: int|
            0 <= c < group.nodes[n].contents.len() && alerting(
                (#[trigger] group.nodes[n].contents[c]).status,
            );
        assert(alerting(group.nodes[n].contents[c].status));
    }
    if exists|n: int, c: int|
        0 <= n < group.nodes.len() && 0 <= c < group.nodes[n].contents.len() && alerting(
            (#[trigger] group.nodes[n].contents[c]).status,
        ) {
        let (n, c) = choose|n: int, c: int|
            0 <= n < group.nodes.len() && 0 <= c < group.nodes[n].contents.len() && alerting(
                (#[trigger] group.nodes[n].contents[c]).status,
            );
        assert(node_has_alert(group.nodes[n]));
    }
}

/// A node of a group appears among the group's surviving nodes exactly when
/// one of its rows is alerting; it then appears reduced, at the place given
/// by the number of surviving nodes before it.
pub proof fn lemma_node_survives_iff_alerting(nodes: Seq<NodeView>, n: int)
    requires
        0 <= n < nodes.len(),
    ensures
        filter_nodes(nodes).contains(filtered_node(nodes[n])) <==> node_has_alert(nodes[n]),
        node_has_alert(nodes[n]) ==> surviving_nodes_before(nodes, n) < filter_nodes(nodes).len()
            && filter_nodes(nodes)[surviving_nodes_before(nodes, n) as int] == filtered_node(
            nodes[n],
        ),
{
    let f = |x: NodeView| surviving_node(x);
    let out = filter_nodes(nodes);
    if node_has_alert(nodes[n]) {
        lemma_filter_map_place(nodes, f, n);
        assert(out[kept_before(nodes, f, n) as int] == filtered_node(nodes[n]));
    }
    if out.contains(filtered_node(nodes[n])) {
        let j = choose|j: int| 0 <= j < out.len() && out[j] == filtered_node(nodes[n]);
        let i = lemma_filter_map_origin(nodes, f, j);
        lemma_alert_contents_nonempty(nodes[i]);
        lemma_alert_contents_nonempty(nodes[n]);
        assert(filtered_node(nodes[i]).contents == filtered_node(nodes[n]).contents);
    }
}

/// A group appears in the filtered hierarchy exactly when some row beneath
/// it is alerting; it then appears reduced, at the place given by the number
/// of surviving groups before it.
pub proof fn lemma_group_survives_iff_alerting(hierarchy: Seq<NodesView>, g: int)
    requires
        0 <= g < hierarchy.len(),
    ensures
        filter_hierarchy(hierarchy).contains(filtered_group(hierarchy[g])) <==> group_has_alert(
            hierarchy[g],
        ),
        group_has_alert(hierarchy[g]) ==> survivors_before(hierarchy, g) < filter_hierarchy(
            hierarchy,
        ).len() && filter_hierarchy(hierarchy)[survivors_before(hierarchy, g) as int]
            == filtered_group(hierarchy[g]),
{
    let f = |x: NodesView| surviving_group(x);
    let out = filter_hierarchy(hierarchy);
    if group_has_alert(hierarchy[g]) {
        lemma_filter_map_place(hierarchy, f, g);
        assert(out[kept_before(hierarchy, f, g) as int] == filtered_group(hierarchy[g]));
    }
    if out.contains(filtered_group(hierarchy[g])) {
        let j = choose|j: int| 0 <= j < out.len() && out[j] == filtered_group(hierarchy[g]);
        let i = lemma_filter_map_origin(hierarchy, f, j);
        lemma_filter_nodes_nonempty(hierarchy[i]);
        lemma_filter_nodes_nonempty(hierarchy[g]);
        assert(filtered_group(hierarchy[i]).nodes == filtered_group(hierarchy[g]).nodes);
    }
}

/// Every group of the filtered hierarchy is what is left of a group of the
/// input that has an alert: the lemma returns the place of that group.
pub proof fn lemma_survivor_origin(hierarchy: Seq<NodesView>, j: int) -> (g: int)
    requires
        0 <= j < filter_hierarchy(hierarchy).len(),
    ensures
        0 <= g < hierarchy.len(),
        group_has_alert(hierarchy[g]),
        survivors_before(hierarchy, g) == j,
        filter_hierarchy(hierarchy)[j] == filtered_group(hierarchy[g]),
{
    lemma_filter_map_origin(hierarchy, |x: NodesView| surviving_group(x), j)
}

/// Survivors keep their relative order: of two groups with an alert, the
/// earlier one lands at the earlier place of the filtered hierarchy.
pub proof fn lemma_survivors_keep_order(hierarchy: Seq<NodesView>, g: int, h: int)
    requires
        0 <= g < h < hierarchy.len(),
        group_has_alert(hierarchy[g]),
        group_has_alert(hierarchy[h]),
    ensures
        survivors_before(hierarchy, g) < survivors_before(hierarchy, h) < filter_hierarchy(
            hierarchy,
        ).len(),
{
    let f = |x: NodesView| surviving_group(x);
    lemma_kept_before_monotone(hierarchy, f, g, h);
    lemma_filter_map_place(hierarchy, f, h);
}

/// Dropping rows that are not alerting does not change the roll-up.
pub proof fn lemma_alert_contents_same_aggregate(contents: Seq<ContentView>)
    ensures
        aggregate(content_statuses(alert_contents(contents))) == aggregate(
            content_statuses(contents),
        ),
{
    let pred = |c: ContentView| alerting(c.status);
    let kept = alert_contents(contents);
    let all = content_statuses(contents);
    let few = content_statuses(kept);
    assert forall|s: StatCode| alerting(s) implies (few.contains(s) <==> all.contains(s)) by {
        if few.contains(s) {
            let k = choose|k: int| 0 <= k < few.len() && few[k] == s;
            assert(kept.contains(kept[k]));
            contents.lemma_filter_contains_rev(pred, kept[k]);
            let i = choose|i: int| 0 <= i < contents.len() && contents[i] == kept[k];
            assert(all[i] == s);
        }
        if all.contains(s) {
            let i = choose|i: int| 0 <= i < all.len() && all[i] == s;
            contents.lemma_filter_contains(pred, i);
            let k = choose|k: int| 0 <= k < kept.len() && kept[k] == contents[i];
            assert(few[k] == s);
        }
    }
    lemma_aggregate_ignores_okay(few, all);
}

/// Filtering never changes the status of a well-formed node.
pub proof fn lemma_filtered_node_keeps_status(node: NodeView)
    requires
        node.well_formed(),
    ensures
        filtered_node(node).status == node.status,
{
    lemma_alert_contents_same_aggregate(node.contents);
}

/// Filtering never changes the status of a well-formed group.
pub proof fn lemma_filtered_group_keeps_status(group: NodesView)
    requires
        group.well_formed(),
    ensures
        filtered_group(group).status == group.status,
{
    let f = |x: NodeView| surviving_node(x);
    let kept = filter_nodes(group.nodes);
    let all = node_statuses(group.nodes);
    let few = node_statuses(kept);
    assert forall|s: StatCode| alerting(s) implies (few.contains(s) <==> all.contains(s)) by {
        if few.contains(s) {
            let k = choose|k: int| 0 <= k < few.len() && few[k] == s;
            let i = lemma_filter_map_origin(group.nodes, f, k);
            lemma_filtered_node_keeps_status(group.nodes[i]);
            assert(all[i] == s);
        }
        if all.contains(s) {
            let i = choose|i: int| 0 <= i < all.len() && all[i] == s;
            let node = group.nodes[i];
            assert(node.well_formed());
            lemma_filtered_node_keeps_status(node);
            if !node_has_alert(node) {
                lemma_alert_contents_nonempty(node);
                assert(content_statuses(alert_contents(node.contents)) =~= Seq::<
                    StatCode,
                >::empty());
            }
            lemma_filter_map_place(group.nodes, f, i);
            assert(few[kept_before(group.nodes, f, i) as int] == s);
        }
    }
    lemma_aggregate_ignores_okay(few, all);
}

/// Filtering never changes the status of a surviving group: each group of
/// the filtered form of a well-formed hierarchy is what is left of a group of
/// the input, whose place the lemma returns, and reports the status that
/// group had.
pub proof fn lemma_filter_preserves_status(hierarchy: Seq<NodesView>, j: int) -> (g: int)
    requires
        hierarchy_well_formed(hierarchy),
        0 <= j < filter_hierarchy(hierarchy).len(),
    ensures
        0 <= g < hierarchy.len(),
        group_has_alert(hierarchy[g]),
        filter_hierarchy(hierarchy)[j] == filtered_group(hierarchy[g]),
        filter_hierarchy(hierarchy)[j].status == hierarchy[g].status,
{
    let g = lemma_survivor_origin(hierarchy, j);
    assert(hierarchy[g].well_formed());
    lemma_filtered_group_keeps_status(hierarchy[g]);
    g
}

/// Filtering never changes the status of a surviving node: each node of
/// what is left of a well-formed group is what is left of a node of that
/// group, whose place the lemma returns, and reports the status that node
/// had.
pub proof fn lemma_filter_preserves_node_status(group: NodesView, k: int) -> (n: int)
    requires
        group.well_formed(),
        0 <= k < filtered_group(group).nodes.len(),
    ensures
        0 <= n < group.nodes.len(),
        node_has_alert(group.nodes[n]),
        filtered_group(group).nodes[k] == filtered_node(group.nodes[n]),
        filtered_group(group).nodes[k].status == group.nodes[n].status,
{
    let n = lemma_filter_map_origin(group.nodes, |x: NodeView| surviving_node(x), k);
    assert(group.nodes[n].well_formed());
    lemma_filtered_node_keeps_status(group.nodes[n]);
    n
}

/// A node that holds at least one row and only alerting rows.
pub open spec fn node_all_alerting(node: NodeView) -> bool {
    &&& node.contents.len() > 0
    &&& forall|c: int|
        0 <= c < node.contents.len() ==> alerting((#[trigger] node.contents[c]).status)
}

/// A group that holds at least one node and only nodes of alerting rows.
pub open spec fn group_all_alerting(group: NodesView) -> bool {
    &&& group.nodes.len() > 0
    &&& forall|n: int| 0 <= n < group.nodes.len() ==> node_all_alerting(#[trigger] group.nodes[n])
}

/// A hierarchy in which nothing could be filtered away.
pub open spec fn hierarchy_all_alerting(hierarchy: Seq<NodesView>) -> bool {
    forall|g: int| 0 <= g < hierarchy.len() ==> group_all_alerting(#[trigger] hierarchy[g])
}

/// What is left of a node with an alert holds only alerting rows, at least
/// one, and a status rolled up from them.
pub proof fn lemma_filtered_node_shape(node: NodeView)
    requires
        node_has_alert(node),
    ensures
        node_all_alerting(filtered_node(node)),
        filtered_node(node).well_formed(),
{
    let pred = |c: ContentView| alerting(c.status);
    let kept = alert_contents(node.contents);
    lemma_alert_contents_nonempty(node);
    assert forall|c: int| 0 <= c < kept.len() implies alerting((#[trigger] kept[c]).status) by {
        node.contents.lemma_filter_pred(pred, c);
    }
}

/// What is left of a group with an alert holds only surviving nodes, at
/// least one, and a status rolled up from them.
pub proof fn lemma_filtered_group_shape(group: NodesView)
    requires
        group_has_alert(group),
    ensures
        group_all_alerting(filtered_group(group)),
        filtered_group(group).well_formed(),
{
    let f = |x: NodeView| surviving_node(x);
    let kept = filter_nodes(group.nodes);
    lemma_filter_nodes_nonempty(group);
    assert forall|n: int| 0 <= n < kept.len() implies node_all_alerting(#[trigger] kept[n])
        && kept[n].well_formed() by {
        let i = lemma_filter_map_origin(group.nodes, f, n);
        lemma_filtered_node_shape(group.nodes[i]);
    }
}

/// The filtered hierarchy holds only alerting rows, no node without rows
/// and no group without nodes, and the status at every level is the roll-up
/// of what is left beneath it.
pub proof fn lemma_filter_output_shape(hierarchy: Seq<NodesView>)
    ensures
        hierarchy_all_alerting(filter_hierarchy(hierarchy)),
        hierarchy_well_formed(filter_hierarchy(hierarchy)),
{
    let f = |x: NodesView| surviving_group(x);
    let kept = filter_hierarchy(hierarchy);
    assert forall|j: int| 0 <= j < kept.len() implies group_all_alerting(#[trigger] kept[j])
        && kept[j].well_formed() by {
        let g = lemma_filter_map_origin(hierarchy, f, j);
        lemma_filtered_group_shape(hierarchy[g]);
    }
}

/// Filtering leaves a well-formed node of alerting rows as it is.
pub proof fn lemma_alerting_node_is_fixed(node: NodeView)
    requires
        node_all_alerting(node),
        node.well_formed(),
    ensures
        surviving_node(node) == Some(node),
{
    let pred = |c: ContentView| alerting(c.status);
    assert forall|c: int| 0 <= c < node.contents.len() implies pred(
        #[trigger] node.contents[c],
    ) by {}
    lemma_filter_all(node.contents, pred);
    assert(alerting(node.contents[0].status));
}

/// Filtering leaves a well-formed group of alerting nodes as it is.
pub proof fn lemma_alerting_group_is_fixed(group: NodesView)
    requires
        group_all_alerting(group),
        group.well_formed(),
    ensures
        surviving_group(group) == Some(group),
{
    let f = |x: NodeView| surviving_node(x);
    assert forall|n: int| 0 <= n < group.nodes.len() implies f(#[trigger] group.nodes[n])
        == Some(group.nodes[n]) by {
        assert(node_all_alerting(group.nodes[n]));
        assert(group.nodes[n].well_formed());
        lemma_alerting_node_is_fixed(group.nodes[n]);
    }
    lemma_filter_map_fixed(group.nodes, f);
    lemma_alerting_node_is_fixed(group.nodes[0]);
    assert(node_has_alert(group.nodes[0]));
}

/// Filtering leaves a well-formed hierarchy as it is when nothing in it
/// could be filtered away.
pub proof fn lemma_filter_fixes_alerting(hierarchy: Seq<NodesView>)
    requires
        hierarchy_all_alerting(hierarchy),
        hierarchy_well_formed(hierarchy),
    ensures
        filter_hierarchy(hierarchy) == hierarchy,
{
    let f = |x: NodesView| surviving_group(x);
    assert forall|g: int| 0 <= g < hierarchy.len() implies f(#[trigger] hierarchy[g]) == Some(
        hierarchy[g],
    ) by {
        assert(group_all_alerting(hierarchy[g]));
        assert(hierarchy[g].well_formed());
        lemma_alerting_group_is_fixed(hierarchy[g]);
    }
    lemma_filter_map_fixed(hierarchy, f);
}

/// Filtering an already filtered hierarchy changes nothing.
pub proof fn lemma_filter_idempotent(hierarchy: Seq<NodesView>)
    ensures
        filter_hierarchy(filter_hierarchy(hierarchy)) == filter_hierarchy(hierarchy),
{
    lemma_filter_output_shape(hierarchy);
    lemma_filter_fixes_alerting(filter_hierarchy(hierarchy));
}

} // verus!
