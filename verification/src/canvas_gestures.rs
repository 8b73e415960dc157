//! The pointer and key gestures of the workflow canvas: what a press, a
//! drag, a release or a key does to the selection, to the connection being
//! drawn and to the workflow. Where the pointer is (the hit tests and the
//! distances, done on screen coordinates) is found outside and handed in.

use vstd::prelude::*;
use crate::canvas::{
    connect_ports, delete_edge, delete_node, edge_kept, edge_other, edges_well_formed, globals_node_id, has_edge,
    is_globals_id, lemma_connect_keeps_edges_well_formed, node_kept, CanvasSelection,
};
use crate::codex_usage::opt_view;
use crate::workflow::{edge_view, EdgeView, WorkflowDefinitionRecord, WorkflowEdge};

verus! {

/// A port of a node.
#[derive(Clone, Debug, PartialEq, Eq)]
pub struct PortEndpoint {
    pub node_id: String,
    pub port_id: String,
}

/// An edge by its two ends: the key its waypoint is kept under.
#[derive(Clone, Debug, PartialEq, Eq)]
pub struct EdgeKey {
    pub from_node_id: String,
    pub from_output_id: String,
    pub to_node_id: String,
    pub to_input_id: String,
}

/// What the pointer is over when the primary button goes down.
#[derive(Clone, Debug)]
pub struct PointerHits {
    /// Whether the press is inside the canvas at all.
    pub inside_canvas: bool,
    /// The output port under the pointer.
    pub output_port: Option<PortEndpoint>,
    /// The edge whose waypoint handle is under the pointer.
    pub waypoint_handle: Option<EdgeKey>,
    /// The node under the pointer.
    pub node: Option<String>,
}

/// What the canvas tracks between pointer events, positions aside.
#[derive(Clone, Debug, PartialEq, Eq)]
pub struct CanvasGestures {
    pub selection: CanvasSelection,
    /// The output port a connection is being drawn from.
    pub pending_connection: Option<PortEndpoint>,
    /// The node being dragged.
    pub drag_node: Option<String>,
    /// The edge whose waypoint is being dragged.
    pub drag_waypoint: Option<EdgeKey>,
    /// Whether the viewport is being panned.
    pub panning: bool,
    /// Whether a press on the empty canvas may still turn into a click.
    pub background_click: bool,
}

/// What an event makes the canvas do besides changing its gestures.
#[derive(Clone, Debug, PartialEq, Eq)]
pub enum CanvasEffect {
    Nothing,
    /// Tell the listeners which node is selected (`None`: no node).
    NodeSelected(Option<String>),
    /// A node was double-clicked.
    NodeActivated(String),
    /// Forget the waypoint of this edge.
    RemoveWaypoint(EdgeKey),
    /// A node was deleted: forget its position, then tell the listeners
    /// that no node is selected.
    NodeDeleted(String),
    /// Select this node (telling the listeners) and open its menu.
    NodeMenu(String),
    /// Select this edge (telling the listeners that no node is selected)
    /// and open its menu.
    EdgeMenu(EdgeKey),
}

/// What moving the pointer does.
#[derive(Clone, Debug, PartialEq, Eq)]
pub struct PointerMotion {
    /// Move the viewport with the pointer.
    pub pan: bool,
    /// Move the loose end of the connection being drawn.
    pub track_connection: bool,
    /// Move this node with the pointer.
    pub move_node: Option<String>,
    /// Move this edge's waypoint to the pointer.
    pub move_waypoint: Option<EdgeKey>,
}

/// The gestures of a canvas that has just opened.
pub open spec fn idle() -> CanvasGestures {
    CanvasGestures {
        selection: CanvasSelection::Nothing,
        pending_connection: None,
        drag_node: None,
        drag_waypoint: None,
        panning: false,
        background_click: false,
    }
}

/// A press of the primary button: on an output port of an editable
/// workflow it starts a connection from that port and selects its node; on
/// a waypoint handle it starts dragging the waypoint (a double click
/// forgets it); on a node it selects the node and, when editable, starts
/// dragging it (a double click activates it); on the empty canvas it clears
/// the selection and the connection and starts panning.
pub open spec fn after_press(g: CanvasGestures, editable: bool, hits: PointerHits, double_click: bool) -> (
    CanvasGestures,
    CanvasEffect,
) {
    if !hits.inside_canvas {
        (g, CanvasEffect::Nothing)
    } else if editable && hits.output_port is Some {
        let p = hits.output_port->0;
        (
            CanvasGestures { selection: CanvasSelection::Node(p.node_id), pending_connection: Some(p), ..g },
            CanvasEffect::NodeSelected(Some(p.node_id)),
        )
    } else if hits.waypoint_handle is Some {
        let k = hits.waypoint_handle->0;
        if double_click {
            (g, CanvasEffect::RemoveWaypoint(k))
        } else {
            (CanvasGestures { drag_waypoint: Some(k), ..g }, CanvasEffect::Nothing)
        }
    } else if hits.node is Some {
        let id = hits.node->0;
        if double_click {
            (g, CanvasEffect::NodeActivated(id))
        } else {
            (
                CanvasGestures {
                    selection: CanvasSelection::Node(id),
                    drag_node: if editable {
                        Some(id)
                    } else {
                        g.drag_node
                    },
                    ..g
                },
                CanvasEffect::NodeSelected(Some(id)),
            )
        }
    } else {
        (
            CanvasGestures {
                selection: CanvasSelection::Nothing,
                pending_connection: None,
                panning: true,
                background_click: true,
                ..g
            },
            CanvasEffect::NodeSelected(None),
        )
    }
}

/// The gestures once the button is up: nothing is drawn, dragged or
/// panned any more.
pub open spec fn released(g: CanvasGestures) -> CanvasGestures {
    CanvasGestures {
        pending_connection: None,
        drag_node: None,
        drag_waypoint: None,
        panning: false,
        background_click: false,
        ..g
    }
}

/// The edge a drawn connection ends in.
pub open spec fn drawn_edge(source: PortEndpoint, target: PortEndpoint) -> EdgeView {
    (source.node_id@, source.port_id@, target.node_id@, target.port_id@)
}

/// The edges after connecting `target`: one more edge at the end, unless
/// it would join a node to itself or exists already.
pub open spec fn edges_after_connect(before: Seq<WorkflowEdge>, after: Seq<WorkflowEdge>, target: EdgeView) -> bool {
    if target.0 != target.2 && !has_edge(before, target) {
        after.len() == before.len() + 1 && after.take(before.len() as int) == before && edge_view(after.last())
            == target
    } else {
        after == before
    }
}

/// The selection of the edge with key `k`.
pub open spec fn edge_selection(k: EdgeKey) -> CanvasSelection {
    CanvasSelection::Edge(k.from_node_id, k.from_output_id, k.to_node_id, k.to_input_id)
}

/// Law: in a run (not editable), pressing on a node selects it and starts
/// no drag, no pan and no connection, so moving the pointer moves nothing
/// (see `motion`) and the release leaves the workflow as it was (see
/// `release`).
pub proof fn lemma_run_press_drags_nothing(g: CanvasGestures, hits: PointerHits)
    requires
        g.drag_node is None,
        g.drag_waypoint is None,
        !g.panning,
        g.pending_connection is None,
        hits.inside_canvas,
        hits.waypoint_handle is None,
        hits.node is Some,
    ensures
        ({
            let (after, effect) = after_press(g, false, hits, false);
            &&& after.selection == CanvasSelection::Node(hits.node->0)
            &&& after.drag_node is None
            &&& after.drag_waypoint is None
            &&& !after.panning
            &&& after.pending_connection is None
            &&& effect == CanvasEffect::NodeSelected(Some(hits.node->0))
        }),
{
}

/// Law: drawing a connection keeps the edges free of duplicates and of
/// edges from a node to itself.
pub proof fn lemma_drawing_keeps_edges_well_formed(
    before: Seq<WorkflowEdge>,
    after: Seq<WorkflowEdge>,
    target: EdgeView,
)
    requires
        edges_well_formed(before),
        edges_after_connect(before, after, target),
    ensures
        edges_well_formed(after),
{
    lemma_connect_keeps_edges_well_formed(
        before,
        after,
        target,
        target.0 != target.2 && !has_edge(before, target),
    );
}

fn copy_port(p: &PortEndpoint) -> (r: PortEndpoint)
    ensures
        r == *p,
{
    PortEndpoint { node_id: p.node_id.clone(), port_id: p.port_id.clone() }
}

fn copy_key(k: &EdgeKey) -> (r: EdgeKey)
    ensures
        r == *k,
{
    EdgeKey {
        from_node_id: k.from_node_id.clone(),
        from_output_id: k.from_output_id.clone(),
        to_node_id: k.to_node_id.clone(),
        to_input_id: k.to_input_id.clone(),
    }
}

impl CanvasGestures {
    /// No selection and no gesture.
    pub fn new() -> (r: Self)
        ensures
            r == idle(),
    {
        CanvasGestures {
            selection: CanvasSelection::Nothing,
            pending_connection: None,
            drag_node: None,
            drag_waypoint: None,
            panning: false,
            background_click: false,
        }
    }

    /// A press of the primary button over `hits`.
    pub fn press(&mut self, editable: bool, hits: &PointerHits, double_click: bool) -> (effect: CanvasEffect)
        ensures
            (*final(self), effect) == after_press(*old(self), editable, *hits, double_click),
    {
        if !hits.inside_canvas {
            return CanvasEffect::Nothing;
        }
        if editable {
            match &hits.output_port {
                Some(p) => {
                    self.selection = CanvasSelection::Node(p.node_id.clone());
                    self.pending_connection = Some(copy_port(p));
                    return CanvasEffect::NodeSelected(Some(p.node_id.clone()));
                },
                None => {},
            }
        }
        match &hits.waypoint_handle {
            Some(k) => {
                if double_click {
                    return CanvasEffect::RemoveWaypoint(copy_key(k));
                }
                self.drag_waypoint = Some(copy_key(k));
                return CanvasEffect::Nothing;
            },
            None => {},
        }
        match &hits.node {
            Some(id) => {
                if double_click {
                    return CanvasEffect::NodeActivated(id.clone());
                }
                if editable {
                    self.drag_node = Some(id.clone());
                }
                self.selection = CanvasSelection::Node(id.clone());
                CanvasEffect::NodeSelected(Some(id.clone()))
            },
            None => {
                self.selection = CanvasSelection::Nothing;
                self.pending_connection = None;
                self.panning = true;
                self.background_click = true;
                CanvasEffect::NodeSelected(None)
            },
        }
    }

    /// What moving the pointer does: panning takes it over; else, in an
    /// editable workflow, a connection being drawn follows it; else the
    /// dragged node and the dragged waypoint follow it.
    pub fn motion(&self, editable: bool) -> (m: PointerMotion)
        ensures
            self.panning ==> m == (PointerMotion {
                pan: true,
                track_connection: false,
                move_node: None,
                move_waypoint: None,
            }),
            !self.panning && editable && self.pending_connection is Some ==> m == (PointerMotion {
                pan: false,
                track_connection: true,
                move_node: None,
                move_waypoint: None,
            }),
            !self.panning && !(editable && self.pending_connection is Some) ==> m == (PointerMotion {
                pan: false,
                track_connection: false,
                move_node: self.drag_node,
                move_waypoint: self.drag_waypoint,
            }),
    {
        if self.panning {
            return PointerMotion { pan: true, track_connection: false, move_node: None, move_waypoint: None };
        }
        if editable && self.pending_connection.is_some() {
            return PointerMotion { pan: false, track_connection: true, move_node: None, move_waypoint: None };
        }
        let move_node = match &self.drag_node {
            Some(id) => Some(id.clone()),
            None => None,
        };
        let move_waypoint = match &self.drag_waypoint {
            Some(k) => Some(copy_key(k)),
            None => None,
        };
        PointerMotion { pan: false, track_connection: false, move_node, move_waypoint }
    }

    /// The primary button goes up. A connection drawn in an editable
    /// workflow and dropped on `drop_port`, an input port, becomes an edge
    /// (unless it joins a node to itself or exists already); every gesture
    /// ends; a press on the empty canvas that moved less than the click
    /// slop (`short_click`) selects the globals node.
    pub fn release(
        &mut self,
        editable: bool,
        workflow: &mut Option<WorkflowDefinitionRecord>,
        drop_port: Option<&PortEndpoint>,
        short_click: bool,
    ) -> (effect: CanvasEffect)
        ensures
            *final(self) == released(*old(self)),
            editable && old(self).pending_connection is Some && drop_port is Some && *old(workflow) is Some ==> {
                let w0 = (*old(workflow))->0;
                let w1 = (*final(workflow))->0;
                &&& *final(workflow) is Some
                &&& w1 == (WorkflowDefinitionRecord { edges: w1.edges, ..w0 })
                &&& edges_after_connect(
                    w0.edges@,
                    w1.edges@,
                    drawn_edge(old(self).pending_connection->0, *drop_port->0),
                )
            },
            !(editable && old(self).pending_connection is Some && drop_port is Some && *old(workflow) is Some)
                ==> *final(workflow) == *old(workflow),
            old(self).background_click && short_click ==> (effect matches CanvasEffect::NodeSelected(id)
                && match *final(workflow) {
                Some(w) => is_globals_id(w.nodes@, opt_view(id)),
                None => id is None,
            }),
            !(old(self).background_click && short_click) ==> effect == CanvasEffect::Nothing,
    {
        if editable {
            match (&self.pending_connection, drop_port, workflow.as_mut()) {
                (Some(source), Some(target), Some(w)) => {
                    let ghost before = *w;
                    connect_ports(
                        w,
                        source.node_id.as_str(),
                        source.port_id.as_str(),
                        target.node_id.as_str(),
                        target.port_id.as_str(),
                    );
                    proof {
                        assert(edges_after_connect(
                            before.edges@,
                            w.edges@,
                            drawn_edge(self.pending_connection->0, *target),
                        ));
                    }
                },
                _ => {},
            }
        }
        let click = self.background_click && short_click;
        self.pending_connection = None;
        self.drag_node = None;
        self.drag_waypoint = None;
        self.panning = false;
        self.background_click = false;
        if click {
            match workflow {
                Some(w) => CanvasEffect::NodeSelected(globals_node_id(w)),
                None => CanvasEffect::NodeSelected(None),
            }
        } else {
            CanvasEffect::Nothing
        }
    }

    /// A press of the secondary button in an editable workflow: on a node
    /// (first) or an edge it ends every drag, selects it and opens its
    /// menu; elsewhere, or in a run, nothing happens.
    pub fn secondary_press(
        &mut self,
        editable: bool,
        inside_canvas: bool,
        node: Option<&String>,
        edge: Option<&EdgeKey>,
    ) -> (effect: CanvasEffect)
        ensures
            !editable || !inside_canvas || (node is None && edge is None) ==> *final(self) == *old(self)
                && effect == CanvasEffect::Nothing,
            editable && inside_canvas && node is Some ==> *final(self) == (CanvasGestures {
                selection: CanvasSelection::Node(*node->0),
                pending_connection: None,
                drag_node: None,
                panning: false,
                ..*old(self)
            }) && effect == CanvasEffect::NodeMenu(*node->0),
            editable && inside_canvas && node is None && edge is Some ==> *final(self) == (CanvasGestures {
                selection: edge_selection(*edge->0),
                pending_connection: None,
                drag_node: None,
                panning: false,
                ..*old(self)
            }) && effect == CanvasEffect::EdgeMenu(*edge->0),
    {
        if !editable || !inside_canvas {
            return CanvasEffect::Nothing;
        }
        match node {
            Some(id) => {
                self.pending_connection = None;
                self.drag_node = None;
                self.panning = false;
                self.selection = CanvasSelection::Node(id.clone());
                CanvasEffect::NodeMenu(id.clone())
            },
            None => match edge {
                Some(k) => {
                    self.pending_connection = None;
                    self.drag_node = None;
                    self.panning = false;
                    self.selection = CanvasSelection::Edge(
                        k.from_node_id.clone(),
                        k.from_output_id.clone(),
                        k.to_node_id.clone(),
                        k.to_input_id.clone(),
                    );
                    CanvasEffect::EdgeMenu(copy_key(k))
                },
                None => CanvasEffect::Nothing,
            },
        }
    }
    /// A key press: `backspace` or `delete` in an editable workflow deletes
    /// the selected node (with the edges at it) or the selected edge;
    /// `escape` clears the selection and the connection being drawn; other
    /// keys do nothing.
    pub fn key_down(&mut self, key: &str, editable: bool, workflow: &mut Option<WorkflowDefinitionRecord>) -> (effect:
        CanvasEffect)
        ensures
            if key@ == "backspace"@ || key@ == "delete"@ {
                match (old(self).selection, *old(workflow)) {
                    (CanvasSelection::Node(id), Some(w0)) if editable => {
                        let w1 = (*final(workflow))->0;
                        &&& *final(workflow) is Some
                        &&& w1 == (WorkflowDefinitionRecord { nodes: w1.nodes, edges: w1.edges, ..w0 })
                        &&& w1.nodes@ == w0.nodes@.filter(node_kept(id@))
                        &&& w1.edges@ == w0.edges@.filter(edge_kept(id@))
                        &&& *final(self) == (CanvasGestures {
                            selection: CanvasSelection::Nothing,
                            pending_connection: None,
                            ..*old(self)
                        })
                        &&& effect == CanvasEffect::NodeDeleted(id)
                    },
                    (CanvasSelection::Edge(a, b, c, d), Some(w0)) if editable => {
                        let w1 = (*final(workflow))->0;
                        &&& *final(workflow) is Some
                        &&& w1 == (WorkflowDefinitionRecord { edges: w1.edges, ..w0 })
                        &&& w1.edges@ == w0.edges@.filter(edge_other((a@, b@, c@, d@)))
                        &&& *final(self) == (CanvasGestures { selection: CanvasSelection::Nothing, ..*old(self) })
                        &&& effect == CanvasEffect::NodeSelected(None)
                    },
                    _ => *final(self) == *old(self) && *final(workflow) == *old(workflow) && effect
                        == CanvasEffect::Nothing,
                }
            } else if key@ == "escape"@ {
                &&& *final(self) == (CanvasGestures {
                    selection: CanvasSelection::Nothing,
                    pending_connection: None,
                    ..*old(self)
                })
                &&& *final(workflow) == *old(workflow)
                &&& effect == CanvasEffect::NodeSelected(None)
            } else {
                *final(self) == *old(self) && *final(workflow) == *old(workflow) && effect == CanvasEffect::Nothing
            },
    {
        if crate::text::same_text(key, "backspace") || crate::text::same_text(key, "delete") {
            if !editable {
                return CanvasEffect::Nothing;
            }
            let w = match workflow.as_mut() {
                Some(w) => w,
                None => return CanvasEffect::Nothing,
            };
            match &self.selection {
                CanvasSelection::Node(id) => {
                    let id = id.clone();
                    delete_node(w, id.as_str());
                    self.selection = CanvasSelection::Nothing;
                    self.pending_connection = None;
                    CanvasEffect::NodeDeleted(id)
                },
                CanvasSelection::Edge(a, b, c, d) => {
                    delete_edge(w, a.as_str(), b.as_str(), c.as_str(), d.as_str());
                    self.selection = CanvasSelection::Nothing;
                    CanvasEffect::NodeSelected(None)
                },
                CanvasSelection::Nothing => CanvasEffect::Nothing,
            }
        } else if crate::text::same_text(key, "escape") {
            self.selection = CanvasSelection::Nothing;
            self.pending_connection = None;
            CanvasEffect::NodeSelected(None)
        } else {
            CanvasEffect::Nothing
        }
    }
}

} // verus!
