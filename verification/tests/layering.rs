use neozed::json::JsonValue;
use neozed::layering::layout_layers;
use neozed::workflow::{WorkflowEdge, WorkflowNode};

fn node(id: &str) -> WorkflowNode {
    WorkflowNode {
        id: id.to_string(),
        node_type: "task".to_string(),
        label: id.to_uppercase(),
        configuration: JsonValue::Object(Vec::new()),
        runtime: JsonValue::Object(Vec::new()),
    }
}

fn edge(from: &str, to: &str) -> WorkflowEdge {
    WorkflowEdge {
        from_node_id: from.to_string(),
        from_output_id: "success".to_string(),
        to_node_id: to.to_string(),
        to_input_id: "default".to_string(),
    }
}

#[test]
fn test_auto_layout_single_node() {
    assert_eq!(layout_layers(&vec![node("a")], &vec![]), vec![0]);
}

#[test]
fn test_auto_layout_chain() {
    let nodes = vec![node("task"), node("validation"), node("integration")];
    let edges = vec![edge("task", "validation"), edge("validation", "integration")];
    assert_eq!(layout_layers(&nodes, &edges), vec![0, 1, 2]);
}

#[test]
fn back_edges_do_not_push_columns_and_the_longest_chain_wins() {
    let nodes = vec![node("a"), node("b"), node("c"), node("d")];
    let edges = vec![edge("a", "b"), edge("b", "c"), edge("a", "c"), edge("c", "a"), edge("c", "d"), edge("a", "d")];
    assert_eq!(layout_layers(&nodes, &edges), vec![0, 1, 2, 3]);
}

#[test]
fn unknown_ids_and_unreached_nodes() {
    let nodes = vec![node("a"), node("b"), node("c")];
    let edges = vec![edge("a", "ghost"), edge("ghost", "b"), edge("c", "c")];
    assert_eq!(layout_layers(&nodes, &edges), vec![0, 2, 0]);
}
