//! The viewer's state: the snapshot on display, the view mode, and the
//! selection cursor, with the transitions that user events drive.

use crate::data::{hierarchy_well_formed, Node, Nodes, NodesView};
use crate::filter::{filter_hierarchy, filter_nodes_alert};
use crate::sample::{sample_hierarchy, sample_nodes_info};
use vstd::prelude::*;

verus! {

/// The cursor into the hierarchy on display.
#[derive(Clone, Copy, Debug, PartialEq, Eq, Structural)]
pub enum Selection {
    /// Nothing is focused.
    Empty,
    /// The header of the group at this index is focused.
    GroupFocused(usize),
    /// The node at this (group, node) index pair is focused.
    NodeFocused(usize, usize),
}

/// Mathematical value of a [`MainViewer`].
pub struct ViewerState {
    /// The full snapshot, as it was loaded.
    pub origin: Seq<NodesView>,
    /// Whether only alerting branches are on display.
    pub alert_only: bool,
    /// The cursor into the hierarchy on display.
    pub selection: Selection,
}

impl ViewerState {
    /// The hierarchy on display: the full snapshot, or its alerting branches.
    pub open spec fn current(self) -> Seq<NodesView> {
        if self.alert_only {
            filter_hierarchy(self.origin)
        } else {
            self.origin
        }
    }

    /// `g` is the index of a group on display.
    pub open spec fn has_group(self, g: int) -> bool {
        0 <= g < self.current().len()
    }

    /// `(g, n)` is the index pair of a node on display.
    pub open spec fn has_node(self, g: int, n: int) -> bool {
        0 <= g < self.current().len() && 0 <= n < self.current()[g].nodes.len()
    }

    /// The selection points into the hierarchy on display.
    pub open spec fn selection_valid(self) -> bool {
        match self.selection {
            Selection::Empty => true,
            Selection::GroupFocused(g) => self.has_group(g as int),
            Selection::NodeFocused(g, n) => self.has_node(g as int, n as int),
        }
    }

    /// `detail` is the entity on display that the selection points at.
    pub open spec fn resolves_to(self, detail: Resolved) -> bool {
        match self.selection {
            Selection::Empty => detail is Nothing,
            Selection::GroupFocused(g) => {
                &&& detail matches Resolved::Group(group)
                &&& group.deep_view() == self.current()[g as int]
            },
            Selection::NodeFocused(g, n) => {
                &&& detail matches Resolved::Node(node)
                &&& node.deep_view() == self.current()[g as int].nodes[n as int]
            },
        }
    }

    /// `panel` is what the central panel shows in this state.
    pub open spec fn shows(self, panel: Panel) -> bool {
        if self.alert_only {
            &&& panel matches Panel::AlertTables(shown)
            &&& shown.deep_view() == self.current()
        } else if self.selection is Empty {
            panel is Blank
        } else {
            &&& panel matches Panel::Detail(selection, detail)
            &&& selection == self.selection
            &&& self.resolves_to(detail)
        }
    }

    /// The state after a snapshot is loaded: full view, nothing selected.
    pub open spec fn loaded(snapshot: Seq<NodesView>) -> ViewerState {
        ViewerState { origin: snapshot, alert_only: false, selection: Selection::Empty }
    }

    /// The state after the view mode is flipped: same snapshot, nothing
    /// selected.
    pub open spec fn toggled(self) -> ViewerState {
        ViewerState {
            origin: self.origin,
            alert_only: !self.alert_only,
            selection: Selection::Empty,
        }
    }

    /// The state after the selection is cleared.
    pub open spec fn cleared(self) -> ViewerState {
        ViewerState { selection: Selection::Empty, ..self }
    }

    /// The state after a request to focus group `g`: honoured when `g` is on
    /// display, ignored otherwise.
    pub open spec fn with_group(self, g: usize) -> ViewerState {
        if self.has_group(g as int) {
            ViewerState { selection: Selection::GroupFocused(g), ..self }
        } else {
            self
        }
    }

    /// The state after a request to focus node `(g, n)`: honoured when the
    /// node is on display, ignored otherwise.
    pub open spec fn with_node(self, g: usize, n: usize) -> ViewerState {
        if self.has_node(g as int, n as int) {
            ViewerState { selection: Selection::NodeFocused(g, n), ..self }
        } else {
            self
        }
    }
}

/// What the detail view has to show for a selection.
#[derive(Clone, Copy, Debug)]
pub enum Resolved<'a> {
    /// Nothing is focused: nothing to display.
    Nothing,
    /// A group is focused: its nodes are the summary rows.
    Group(&'a Nodes),
    /// A node is focused: its contents are the rows.
    Node(&'a Node),
}

/// What the central panel has to show.
#[derive(Clone, Copy, Debug)]
pub enum Panel<'a> {
    /// Alert-only mode: the tables of every branch on display, whatever is
    /// selected.
    AlertTables(&'a Vec<Nodes>),
    /// Full mode with a selection: the selection and what it resolves to.
    Detail(Selection, Resolved<'a>),
    /// Full mode without a selection: nothing.
    Blank,
}

/// Every transition keeps the selection inside the hierarchy on display:
/// loading and toggling by dropping it, the others by checking the request.
pub proof fn lemma_transitions_keep_selection_valid(
    state: ViewerState,
    snapshot: Seq<NodesView>,
    g: usize,
    n: usize,
)
    requires
        state.selection_valid(),
    ensures
        ViewerState::loaded(snapshot).selection_valid(),
        state.toggled().selection_valid(),
        state.cleared().selection_valid(),
        state.with_group(g).selection_valid(),
        state.with_node(g, n).selection_valid(),
{
}

/// Loading and toggling always leave the selection empty, and a request to
/// focus what is not on display leaves the state as it was.
pub proof fn lemma_selection_reset_and_safety(
    state: ViewerState,
    snapshot: Seq<NodesView>,
    g: usize,
    n: usize,
)
    ensures
        ViewerState::loaded(snapshot).selection == Selection::Empty,
        state.toggled().selection == Selection::Empty,
        g >= state.current().len() ==> state.with_group(g) == state,
        g >= state.current().len() ==> state.with_node(g, n) == state,
        g < state.current().len() && n >= state.current()[g as int].nodes.len()
            ==> state.with_node(g, n) == state,
{
}

/// The one state object of a viewing session: snapshot, view mode and
/// selection.
#[derive(Debug)]
pub struct MainViewer {
    nodes_origin: Vec<Nodes>,
    alert_view: Option<Vec<Nodes>>,
    selected: Selection,
}

impl View for MainViewer {
    type V = ViewerState;

    closed spec fn view(&self) -> ViewerState {
        ViewerState {
            origin: self.nodes_origin.deep_view(),
            alert_only: self.alert_view is Some,
            selection: self.selected,
        }
    }
}

impl Default for MainViewer {
    /// A viewer showing a freshly drawn sample, with nothing selected.
    fn default() -> (viewer: Self)
        ensures
            viewer@ == ViewerState::loaded(viewer@.origin),
            sample_hierarchy(viewer@.origin),
            hierarchy_well_formed(viewer@.origin),
    {
        MainViewer::new(sample_nodes_info())
    }
}

impl Clone for MainViewer {
    fn clone(&self) -> (copy: Self)
        ensures
            copy@ == self@,
    {
        proof {
            use_type_invariant(self);
        }
        let nodes_origin = self.nodes_origin.clone();
        let alert_view = match &self.alert_view {
            Some(shown) => Some(shown.clone()),
            None => None,
        };
        assert(nodes_origin.deep_view() =~= self.nodes_origin.deep_view());
        assert(alert_view matches Some(shown) ==> shown.deep_view()
            =~= self.alert_view->0.deep_view());
        MainViewer { nodes_origin, alert_view, selected: self.selected }
    }
}

impl MainViewer {
    #[verifier::type_invariant]
    spec fn inv(self) -> bool {
        &&& self.alert_view matches Some(shown) ==> shown.deep_view() == filter_hierarchy(
            self.nodes_origin.deep_view(),
        )
        &&& self@.selection_valid()
    }

    /// A viewer showing the whole of `snapshot`, with nothing selected.
    pub fn new(snapshot: Vec<Nodes>) -> (viewer: MainViewer)
        ensures
            viewer@ == ViewerState::loaded(snapshot.deep_view()),
    {
        MainViewer { nodes_origin: snapshot, alert_view: None, selected: Selection::Empty }
    }

    /// Replaces the snapshot; the view falls back to full and the selection
    /// is dropped. The snapshot is taken as it is: its statuses are not
    /// recomputed.
    pub fn load(&mut self, snapshot: Vec<Nodes>)
        ensures
            final(self)@ == ViewerState::loaded(snapshot.deep_view()),
            final(self)@.selection == Selection::Empty,
    {
        proof {
            use_type_invariant(&*self);
        }
        self.selected = Selection::Empty;
        self.alert_view = None;
        self.nodes_origin = snapshot;
    }

    /// Replaces the snapshot by a freshly drawn sample; the view falls back
    /// to full and the selection is dropped.
    pub fn reload(&mut self)
        ensures
            final(self)@ == ViewerState::loaded(final(self)@.origin),
            final(self)@.selection == Selection::Empty,
            sample_hierarchy(final(self)@.origin),
            hierarchy_well_formed(final(self)@.origin),
    {
        self.load(sample_nodes_info());
    }

    /// Flips between the full view and the alert-only view; the selection is
    /// dropped either way.
    pub fn toggle_alert_filter(&mut self)
        ensures
            final(self)@ == old(self)@.toggled(),
            final(self)@.selection == Selection::Empty,
    {
        proof {
            use_type_invariant(&*self);
        }
        self.selected = Selection::Empty;
        if self.alert_view.is_none() {
            self.alert_view = Some(filter_nodes_alert(&self.nodes_origin));
        } else {
            self.alert_view = None;
        }
    }

    /// Drops the selection.
    pub fn clear(&mut self)
        ensures
            final(self)@ == old(self)@.cleared(),
    {
        proof {
            use_type_invariant(&*self);
        }
        self.selected = Selection::Empty;
    }

    /// The hierarchy on display.
    pub fn current_hierarchy(&self) -> (shown: &Vec<Nodes>)
        ensures
            shown.deep_view() == self@.current(),
    {
        proof {
            use_type_invariant(self);
        }
        match &self.alert_view {
            Some(shown) => shown,
            None => &self.nodes_origin,
        }
    }

    /// Focuses the group at `g` if there is one on display; otherwise does
    /// nothing.
    pub fn select_group(&mut self, g: usize)
        ensures
            final(self)@ == old(self)@.with_group(g),
            !old(self)@.has_group(g as int) ==> final(self)@ == old(self)@,
    {
        proof {
            use_type_invariant(&*self);
        }
        if g < self.current_hierarchy().len() {
            self.selected = Selection::GroupFocused(g);
        }
    }

    /// Focuses the node at `(g, n)` if there is one on display; otherwise
    /// does nothing.
    pub fn select_node(&mut self, g: usize, n: usize)
        ensures
            final(self)@ == old(self)@.with_node(g, n),
            !old(self)@.has_node(g as int, n as int) ==> final(self)@ == old(self)@,
    {
        proof {
            use_type_invariant(&*self);
        }
        let shown = self.current_hierarchy();
        if g < shown.len() && n < shown[g].nodes.len() {
            self.selected = Selection::NodeFocused(g, n);
        }
    }

    /// The selection, which always points into the hierarchy on display.
    pub fn current_selection(&self) -> (selection: Selection)
        ensures
            selection == self@.selection,
            self@.selection_valid(),
    {
        proof {
            use_type_invariant(self);
        }
        self.selected
    }

    /// Whether only alerting branches are on display.
    pub fn is_alert_only(&self) -> (alert_only: bool)
        ensures
            alert_only == self@.alert_only,
    {
        self.alert_view.is_some()
    }

    /// The entity that the selection points at: the focused group, the
    /// focused node, or nothing.
    pub fn resolve_selection(&self) -> (detail: Resolved<'_>)
        ensures
            self@.resolves_to(detail),
    {
        proof {
            use_type_invariant(self);
        }
        let shown = self.current_hierarchy();
        match self.selected {
            Selection::Empty => Resolved::Nothing,
            Selection::GroupFocused(g) => Resolved::Group(&shown[g]),
            Selection::NodeFocused(g, n) => Resolved::Node(&shown[g].nodes[n]),
        }
    }

    /// What the central panel shows: every alert table in alert-only mode,
    /// else the detail of the selection, else nothing.
    pub fn central_panel(&self) -> (panel: Panel<'_>)
        ensures
            self@.shows(panel),
    {
        if self.is_alert_only() {
            Panel::AlertTables(self.current_hierarchy())
        } else {
            match self.current_selection() {
                Selection::Empty => Panel::Blank,
                selection => Panel::Detail(selection, self.resolve_selection()),
            }
        }
    }
}

} // verus!
