use neozed::inspector::{inspector_fields, join_texts, InspectorFields};
use neozed::json::JsonValue;
use neozed::workflow::{NodePolicy, RetryBehavior, WorkflowDefinitionRecord, WorkflowNode};

fn node(id: &str, label: &str) -> WorkflowNode {
    WorkflowNode {
        id: id.into(),
        node_type: "task".into(),
        label: label.into(),
        configuration: JsonValue::Object(Vec::new()),
        runtime: JsonValue::Object(Vec::new()),
    }
}

fn workflow() -> WorkflowDefinitionRecord {
    WorkflowDefinitionRecord {
        id: 7,
        name: "Release".into(),
        nodes: vec![node("build", "Build"), node("ship", "Ship")],
        edges: vec![],
        node_policies: vec![NodePolicy {
            node_id: "build".into(),
            required_reviews: 2,
            required_checks: vec!["lint".into(), "test".into()],
            retry_behavior: RetryBehavior { max_attempts: 5, backoff_ms: 250 },
            validation_policy_ref: None,
        }],
        retry_behavior: RetryBehavior::default(),
        validation_policy_ref: None,
        trigger_metadata: Vec::new(),
    }
}

#[test]
fn inspector_shows_the_node_label_and_its_policy() {
    assert_eq!(
        inspector_fields(&workflow(), "build"),
        InspectorFields {
            label: Some("Build".into()),
            required_reviews: "2".into(),
            required_checks: "lint, test".into(),
            max_attempts: "5".into(),
            backoff_ms: "250".into(),
        }
    );
}

#[test]
fn inspector_falls_back_to_the_default_policy() {
    assert_eq!(
        inspector_fields(&workflow(), "ship"),
        InspectorFields {
            label: Some("Ship".into()),
            required_reviews: "0".into(),
            required_checks: String::new(),
            max_attempts: "3".into(),
            backoff_ms: "1000".into(),
        }
    );
    assert_eq!(inspector_fields(&workflow(), "missing").label, None);
}

#[test]
fn texts_are_joined_with_the_separator() {
    assert_eq!(join_texts(&vec![], ", "), "");
    assert_eq!(join_texts(&vec!["a".to_string()], ", "), "a");
    assert_eq!(join_texts(&vec!["a".to_string(), "b".to_string(), "c".to_string()], "; "), "a; b; c");
}
