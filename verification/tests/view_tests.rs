use node_viewer::data::{Content, Node, NodeType, Nodes};
use node_viewer::filter::filter_nodes_alert;
use node_viewer::status::StatCode;
use node_viewer::view::{MainViewer, Panel, Resolved, Selection};

fn item(index: &str, status: StatCode) -> Content {
    Content { index: index.to_string(), caption: "state".to_string(), status }
}

fn snapshot() -> Vec<Nodes> {
    vec![
        Nodes::new(
            "calm".to_string(),
            vec![
                Node::new(NodeType::NodeA, vec![item("a0", StatCode::Okay)]),
                Node::new(NodeType::NodeB, vec![item("b0", StatCode::Okay)]),
            ],
        ),
        Nodes::new(
            "loud".to_string(),
            vec![
                Node::new(NodeType::NodeA, vec![item("a0", StatCode::Okay)]),
                Node::new(
                    NodeType::NodeB,
                    vec![item("b0", StatCode::Ng), item("b1", StatCode::Okay)],
                ),
                Node::new(NodeType::NodeC, vec![item("c0", StatCode::Warning)]),
            ],
        ),
    ]
}

#[test]
fn viewer_starts_in_full_view_with_nothing_selected() {
    let viewer = MainViewer::new(snapshot());
    assert_eq!(viewer.current_selection(), Selection::Empty);
    assert!(!viewer.is_alert_only());
    assert_eq!(viewer.current_hierarchy(), &snapshot());
    assert!(matches!(viewer.resolve_selection(), Resolved::Nothing));
    assert!(matches!(viewer.central_panel(), Panel::Blank));
}

#[test]
fn select_node_then_toggle_resets_selection() {
    let mut viewer = MainViewer::new(snapshot());
    assert_eq!(viewer.current_selection(), Selection::Empty);
    viewer.select_node(0, 1);
    assert_eq!(viewer.current_selection(), Selection::NodeFocused(0, 1));
    viewer.toggle_alert_filter();
    assert_eq!(viewer.current_selection(), Selection::Empty);
}

#[test]
fn select_group_focuses_a_group_on_display() {
    let mut viewer = MainViewer::new(snapshot());
    viewer.select_group(1);
    assert_eq!(viewer.current_selection(), Selection::GroupFocused(1));
    viewer.select_node(1, 2);
    assert_eq!(viewer.current_selection(), Selection::NodeFocused(1, 2));
    viewer.select_group(0);
    assert_eq!(viewer.current_selection(), Selection::GroupFocused(0));
}

#[test]
fn select_group_out_of_range_changes_nothing() {
    let mut viewer = MainViewer::new(snapshot());
    viewer.select_group(2);
    assert_eq!(viewer.current_selection(), Selection::Empty);
    viewer.select_group(1);
    viewer.select_group(2);
    assert_eq!(viewer.current_selection(), Selection::GroupFocused(1));
    viewer.select_group(usize::MAX);
    assert_eq!(viewer.current_selection(), Selection::GroupFocused(1));
}

#[test]
fn select_node_out_of_range_changes_nothing() {
    let mut viewer = MainViewer::new(snapshot());
    viewer.select_node(0, 2);
    assert_eq!(viewer.current_selection(), Selection::Empty);
    viewer.select_node(2, 0);
    assert_eq!(viewer.current_selection(), Selection::Empty);
    viewer.select_node(1, 2);
    viewer.select_node(1, 3);
    assert_eq!(viewer.current_selection(), Selection::NodeFocused(1, 2));
    viewer.select_node(5, 0);
    assert_eq!(viewer.current_selection(), Selection::NodeFocused(1, 2));
}

#[test]
fn selection_on_an_empty_hierarchy_is_ignored() {
    let mut viewer = MainViewer::new(Vec::new());
    viewer.select_group(0);
    viewer.select_node(0, 0);
    assert_eq!(viewer.current_selection(), Selection::Empty);
}

#[test]
fn clear_drops_the_selection() {
    let mut viewer = MainViewer::new(snapshot());
    viewer.select_group(0);
    viewer.clear();
    assert_eq!(viewer.current_selection(), Selection::Empty);
    assert_eq!(viewer.current_hierarchy(), &snapshot());
    assert!(!viewer.is_alert_only());
}

#[test]
fn toggle_shows_the_filtered_hierarchy_and_back() {
    let mut viewer = MainViewer::new(snapshot());
    viewer.toggle_alert_filter();
    assert!(viewer.is_alert_only());
    assert_eq!(viewer.current_hierarchy(), &filter_nodes_alert(&snapshot()));
    assert_eq!(viewer.current_hierarchy().len(), 1);
    assert_eq!(viewer.current_hierarchy()[0].name, "loud");
    viewer.toggle_alert_filter();
    assert!(!viewer.is_alert_only());
    assert_eq!(viewer.current_hierarchy(), &snapshot());
}

#[test]
fn toggle_resets_selection_in_both_directions() {
    let mut viewer = MainViewer::new(snapshot());
    viewer.select_group(1);
    viewer.toggle_alert_filter();
    assert_eq!(viewer.current_selection(), Selection::Empty);
    viewer.select_node(0, 1);
    assert_eq!(viewer.current_selection(), Selection::NodeFocused(0, 1));
    viewer.toggle_alert_filter();
    assert_eq!(viewer.current_selection(), Selection::Empty);
}

#[test]
fn selection_is_checked_against_the_hierarchy_on_display() {
    let mut viewer = MainViewer::new(snapshot());
    viewer.toggle_alert_filter();
    viewer.select_group(1);
    assert_eq!(viewer.current_selection(), Selection::Empty);
    viewer.select_node(0, 2);
    assert_eq!(viewer.current_selection(), Selection::Empty);
    viewer.select_node(0, 1);
    assert_eq!(viewer.current_selection(), Selection::NodeFocused(0, 1));
    match viewer.resolve_selection() {
        Resolved::Node(node) => {
            assert_eq!(node.name, NodeType::NodeC);
            assert_eq!(node.contents, vec![item("c0", StatCode::Warning)]);
        }
        other => panic!("unexpected {:?}", other),
    }
}

#[test]
fn load_replaces_the_snapshot_and_resets_everything() {
    let mut viewer = MainViewer::new(snapshot());
    viewer.toggle_alert_filter();
    viewer.select_group(0);
    let fresh = vec![Nodes::new(
        "fresh".to_string(),
        vec![Node::new(NodeType::NodeE, vec![item("e0", StatCode::Warning)])],
    )];
    viewer.load(fresh.clone());
    assert_eq!(viewer.current_selection(), Selection::Empty);
    assert!(!viewer.is_alert_only());
    assert_eq!(viewer.current_hierarchy(), &fresh);
    viewer.toggle_alert_filter();
    assert_eq!(viewer.current_hierarchy(), &filter_nodes_alert(&fresh));
}

#[test]
fn reload_draws_a_sample_and_resets_everything() {
    let mut viewer = MainViewer::new(snapshot());
    viewer.select_node(1, 1);
    viewer.toggle_alert_filter();
    viewer.select_group(0);
    viewer.reload();
    assert_eq!(viewer.current_selection(), Selection::Empty);
    assert!(!viewer.is_alert_only());
    let shown = viewer.current_hierarchy();
    assert!(10 <= shown.len() && shown.len() < 50);
    assert_eq!(shown[0].name, "Node Log 00");
}

#[test]
fn default_viewer_shows_a_sample() {
    let viewer = MainViewer::default();
    assert_eq!(viewer.current_selection(), Selection::Empty);
    assert!(!viewer.is_alert_only());
    let shown = viewer.current_hierarchy();
    assert!(10 <= shown.len() && shown.len() < 50);
    assert!(matches!(viewer.central_panel(), Panel::Blank));
}

#[test]
fn resolve_selection_gives_the_focused_entity() {
    let mut viewer = MainViewer::new(snapshot());
    viewer.select_group(1);
    match viewer.resolve_selection() {
        Resolved::Group(group) => assert_eq!(group, &snapshot()[1]),
        other => panic!("unexpected {:?}", other),
    }
    viewer.select_node(1, 1);
    match viewer.resolve_selection() {
        Resolved::Node(node) => assert_eq!(node, &snapshot()[1].nodes[1]),
        other => panic!("unexpected {:?}", other),
    }
    viewer.clear();
    assert!(matches!(viewer.resolve_selection(), Resolved::Nothing));
}

#[test]
fn central_panel_follows_mode_then_selection() {
    let mut viewer = MainViewer::new(snapshot());
    assert!(matches!(viewer.central_panel(), Panel::Blank));
    viewer.select_group(0);
    match viewer.central_panel() {
        Panel::Detail(selection, Resolved::Group(group)) => {
            assert_eq!(selection, Selection::GroupFocused(0));
            assert_eq!(group, &snapshot()[0]);
        }
        other => panic!("unexpected {:?}", other),
    }
    viewer.select_node(1, 2);
    match viewer.central_panel() {
        Panel::Detail(selection, Resolved::Node(node)) => {
            assert_eq!(selection, Selection::NodeFocused(1, 2));
            assert_eq!(node, &snapshot()[1].nodes[2]);
        }
        other => panic!("unexpected {:?}", other),
    }
    viewer.toggle_alert_filter();
    match viewer.central_panel() {
        Panel::AlertTables(shown) => assert_eq!(shown, &filter_nodes_alert(&snapshot())),
        other => panic!("unexpected {:?}", other),
    }
    viewer.select_group(0);
    assert!(matches!(viewer.central_panel(), Panel::AlertTables(_)));
}

#[test]
fn clone_copies_snapshot_mode_and_selection() {
    let mut viewer = MainViewer::new(snapshot());
    viewer.toggle_alert_filter();
    viewer.select_node(0, 1);
    let mut copy = viewer.clone();
    assert!(copy.is_alert_only());
    assert_eq!(copy.current_selection(), Selection::NodeFocused(0, 1));
    assert_eq!(copy.current_hierarchy(), viewer.current_hierarchy());
    copy.toggle_alert_filter();
    assert_eq!(copy.current_hierarchy(), &snapshot());
    assert!(viewer.is_alert_only());
    assert_eq!(viewer.current_selection(), Selection::NodeFocused(0, 1));
}
