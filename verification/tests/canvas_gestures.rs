use neozed::canvas::CanvasSelection;
use neozed::canvas_gestures::{CanvasEffect, CanvasGestures, EdgeKey, PointerHits, PointerMotion, PortEndpoint};
use neozed::json::JsonValue;
use neozed::workflow::{RetryBehavior, WorkflowDefinitionRecord, WorkflowEdge, WorkflowNode};

fn node(id: &str, node_type: &str, label: &str) -> WorkflowNode {
    WorkflowNode {
        id: id.into(),
        node_type: node_type.into(),
        label: label.into(),
        configuration: JsonValue::Object(Vec::new()),
        runtime: JsonValue::Object(Vec::new()),
    }
}

fn edge(from: &str, out: &str, to: &str, input: &str) -> WorkflowEdge {
    WorkflowEdge {
        from_node_id: from.into(),
        from_output_id: out.into(),
        to_node_id: to.into(),
        to_input_id: input.into(),
    }
}

fn workflow(nodes: Vec<WorkflowNode>, edges: Vec<WorkflowEdge>) -> WorkflowDefinitionRecord {
    WorkflowDefinitionRecord {
        id: 0,
        name: "Workflow".into(),
        nodes,
        edges,
        node_policies: vec![],
        retry_behavior: RetryBehavior::default(),
        validation_policy_ref: None,
        trigger_metadata: Vec::new(),
    }
}

fn port(node_id: &str, port_id: &str) -> PortEndpoint {
    PortEndpoint { node_id: node_id.into(), port_id: port_id.into() }
}

fn over_port(node_id: &str, port_id: &str) -> PointerHits {
    // An output port lies on the edge of its node, so the node is hit too.
    PointerHits {
        inside_canvas: true,
        output_port: Some(port(node_id, port_id)),
        waypoint_handle: None,
        node: Some(node_id.into()),
    }
}

fn over_node(node_id: &str) -> PointerHits {
    PointerHits { inside_canvas: true, output_port: None, waypoint_handle: None, node: Some(node_id.into()) }
}

fn over_background() -> PointerHits {
    PointerHits { inside_canvas: true, output_port: None, waypoint_handle: None, node: None }
}

fn two_tasks(edges: Vec<WorkflowEdge>) -> Option<WorkflowDefinitionRecord> {
    Some(workflow(vec![node("node-1", "task", "Task"), node("node-2", "validation", "Validation")], edges))
}

#[test]
fn test_dragging_from_output_port_to_input_port_creates_edge() {
    let mut gestures = CanvasGestures::new();
    let mut wf = two_tasks(vec![]);
    let effect = gestures.press(true, &over_port("node-1", "success"), false);
    assert_eq!(effect, CanvasEffect::NodeSelected(Some("node-1".into())));
    assert_eq!(
        gestures.motion(true),
        PointerMotion { pan: false, track_connection: true, move_node: None, move_waypoint: None }
    );
    let target = port("node-2", "default");
    assert_eq!(gestures.release(true, &mut wf, Some(&target), false), CanvasEffect::Nothing);
    let workflow = wf.as_ref().unwrap();
    assert_eq!(workflow.edges.len(), 1);
    assert_eq!(workflow.edges[0].from_node_id, "node-1");
    assert_eq!(workflow.edges[0].from_output_id, "success");
    assert_eq!(workflow.edges[0].to_node_id, "node-2");
    assert_eq!(workflow.edges[0].to_input_id, "default");
    assert_eq!(gestures.pending_connection, None);
}

#[test]
fn drawing_an_existing_edge_or_onto_the_same_node_adds_nothing() {
    let mut gestures = CanvasGestures::new();
    let mut wf = two_tasks(vec![edge("node-1", "success", "node-2", "default")]);
    gestures.press(true, &over_port("node-1", "success"), false);
    gestures.release(true, &mut wf, Some(&port("node-2", "default")), false);
    assert_eq!(wf.as_ref().unwrap().edges.len(), 1);
    gestures.press(true, &over_port("node-1", "success"), false);
    gestures.release(true, &mut wf, Some(&port("node-1", "default")), false);
    assert_eq!(wf.as_ref().unwrap().edges.len(), 1);
    gestures.press(true, &over_port("node-1", "success"), false);
    gestures.release(true, &mut wf, None, false);
    assert_eq!(wf.as_ref().unwrap().edges.len(), 1);
}

#[test]
fn test_dragging_between_ports_in_run_does_not_create_edge() {
    let mut gestures = CanvasGestures::new();
    let mut wf = two_tasks(vec![]);
    gestures.press(false, &over_port("node-1", "success"), false);
    assert_eq!(gestures.pending_connection, None);
    gestures.release(false, &mut wf, Some(&port("node-2", "default")), false);
    assert!(wf.as_ref().unwrap().edges.is_empty());
}

#[test]
fn test_dragging_run_node_selects_without_moving() {
    let mut gestures = CanvasGestures::new();
    let mut wf = two_tasks(vec![]);
    gestures.press(false, &over_node("node-1"), false);
    assert_eq!(
        gestures.motion(false),
        PointerMotion { pan: false, track_connection: false, move_node: None, move_waypoint: None }
    );
    gestures.release(false, &mut wf, None, false);
    assert_eq!(gestures.selection, CanvasSelection::Node("node-1".into()));
}

#[test]
fn dragging_an_editable_node_moves_it() {
    let mut gestures = CanvasGestures::new();
    gestures.press(true, &over_node("node-2"), false);
    assert_eq!(
        gestures.motion(true),
        PointerMotion { pan: false, track_connection: false, move_node: Some("node-2".into()), move_waypoint: None }
    );
}

#[test]
fn test_mouse_select_emits_node_selected_event() {
    let mut gestures = CanvasGestures::new();
    assert_eq!(gestures.press(true, &over_node("node-1"), false), CanvasEffect::NodeSelected(Some("node-1".into())));
}

#[test]
fn double_clicking_a_node_activates_it() {
    let mut gestures = CanvasGestures::new();
    assert_eq!(gestures.press(true, &over_node("node-1"), true), CanvasEffect::NodeActivated("node-1".into()));
    assert_eq!(gestures, CanvasGestures::new());
}

#[test]
fn test_dragging_empty_canvas_pans_viewport() {
    let mut gestures = CanvasGestures::new();
    let mut wf = two_tasks(vec![]);
    assert_eq!(gestures.press(true, &over_background(), false), CanvasEffect::NodeSelected(None));
    assert_eq!(
        gestures.motion(true),
        PointerMotion { pan: true, track_connection: false, move_node: None, move_waypoint: None }
    );
    // The pointer moved 60 by 45 pixels: no click.
    assert_eq!(gestures.release(true, &mut wf, None, false), CanvasEffect::Nothing);
    assert!(!gestures.panning);
}

#[test]
fn clicking_the_empty_canvas_selects_the_globals_node() {
    let mut gestures = CanvasGestures::new();
    let mut wf = Some(workflow(vec![node("node-1", "task", "Task"), node("globals", "workflow_globals", "Globals")], vec![]));
    gestures.press(true, &over_background(), false);
    assert_eq!(gestures.release(true, &mut wf, None, true), CanvasEffect::NodeSelected(Some("globals".into())));
    let mut without = two_tasks(vec![]);
    gestures.press(true, &over_background(), false);
    assert_eq!(gestures.release(true, &mut without, None, true), CanvasEffect::NodeSelected(None));
}

#[test]
fn test_mouse_down_outside_canvas_does_not_start_pan() {
    let mut gestures = CanvasGestures::new();
    let outside = PointerHits { inside_canvas: false, output_port: None, waypoint_handle: None, node: None };
    assert_eq!(gestures.press(true, &outside, false), CanvasEffect::Nothing);
    assert!(!gestures.panning);
}

#[test]
fn waypoint_handles_drag_and_double_click_to_reset() {
    let key = EdgeKey {
        from_node_id: "node-1".into(),
        from_output_id: "success".into(),
        to_node_id: "node-2".into(),
        to_input_id: "default".into(),
    };
    let hits = PointerHits { inside_canvas: true, output_port: None, waypoint_handle: Some(key.clone()), node: None };
    let mut gestures = CanvasGestures::new();
    assert_eq!(gestures.press(true, &hits, true), CanvasEffect::RemoveWaypoint(key.clone()));
    assert_eq!(gestures.press(false, &hits, false), CanvasEffect::Nothing);
    assert_eq!(
        gestures.motion(false),
        PointerMotion { pan: false, track_connection: false, move_node: None, move_waypoint: Some(key) }
    );
}

#[test]
fn test_backspace_deletes_selected_node_and_connected_edges() {
    let mut gestures = CanvasGestures::new();
    let mut wf = two_tasks(vec![edge("node-1", "success", "node-2", "default")]);
    gestures.selection = CanvasSelection::Node("node-1".into());
    assert_eq!(gestures.key_down("backspace", true, &mut wf), CanvasEffect::NodeDeleted("node-1".into()));
    let workflow = wf.as_ref().unwrap();
    assert_eq!(workflow.nodes.len(), 1);
    assert_eq!(workflow.nodes[0].id, "node-2");
    assert!(workflow.edges.is_empty());
    assert_eq!(gestures.selection, CanvasSelection::Nothing);
}

#[test]
fn test_delete_key_does_not_delete_selected_run_node() {
    let mut gestures = CanvasGestures::new();
    let mut wf = Some(workflow(vec![node("node-1", "task", "Task")], vec![]));
    gestures.selection = CanvasSelection::Node("node-1".into());
    assert_eq!(gestures.key_down("delete", false, &mut wf), CanvasEffect::Nothing);
    let workflow = wf.as_ref().unwrap();
    assert_eq!(workflow.nodes.len(), 1);
    assert_eq!(workflow.nodes[0].id, "node-1");
    assert_eq!(gestures.selection, CanvasSelection::Node("node-1".into()));
}

#[test]
fn escape_clears_the_selection_and_the_connection() {
    let mut gestures = CanvasGestures::new();
    let mut wf = two_tasks(vec![]);
    gestures.press(true, &over_port("node-1", "success"), false);
    assert_eq!(gestures.key_down("escape", true, &mut wf), CanvasEffect::NodeSelected(None));
    assert_eq!(gestures.selection, CanvasSelection::Nothing);
    assert_eq!(gestures.pending_connection, None);
    assert_eq!(gestures.key_down("a", true, &mut wf), CanvasEffect::Nothing);
}

#[test]
fn test_right_clicking_node_selects_it_and_opens_context_menu() {
    let mut gestures = CanvasGestures::new();
    let id = String::from("node-1");
    assert_eq!(gestures.secondary_press(true, true, Some(&id), None), CanvasEffect::NodeMenu("node-1".into()));
    assert_eq!(gestures.selection, CanvasSelection::Node("node-1".into()));
    let mut in_run = CanvasGestures::new();
    assert_eq!(in_run.secondary_press(false, true, Some(&id), None), CanvasEffect::Nothing);
    assert_eq!(in_run.selection, CanvasSelection::Nothing);
}

#[test]
fn test_right_clicking_edge_selects_it_and_delete_key_removes_it() {
    let mut gestures = CanvasGestures::new();
    let mut wf = two_tasks(vec![edge("node-1", "success", "node-2", "default")]);
    let key = EdgeKey {
        from_node_id: "node-1".into(),
        from_output_id: "success".into(),
        to_node_id: "node-2".into(),
        to_input_id: "default".into(),
    };
    assert_eq!(gestures.secondary_press(true, true, None, Some(&key)), CanvasEffect::EdgeMenu(key.clone()));
    assert_eq!(
        gestures.selection,
        CanvasSelection::Edge("node-1".into(), "success".into(), "node-2".into(), "default".into())
    );
    assert_eq!(gestures.key_down("delete", true, &mut wf), CanvasEffect::NodeSelected(None));
    let workflow = wf.as_ref().unwrap();
    assert!(workflow.edges.is_empty());
    assert_eq!(workflow.nodes.len(), 2);
    assert_eq!(gestures.selection, CanvasSelection::Nothing);
}
