use neozed::json::{JsonMember, JsonValue};
use neozed::workflow::{
    NodePolicy, RetryBehavior, TaskLifecycleStatus, WorkflowComparisonOperator, WorkflowDefinitionRecord,
    WorkflowNode, WorkflowNodePrimitive, WorkflowNodeType, default_configuration_for_node_type,
    workflow_globals_node_type, WorkflowNodeTypeCategory, WorkflowValueType,
};

fn text(s: &str) -> JsonValue {
    JsonValue::String(s.to_string(), None)
}

fn object(members: Vec<(&str, JsonValue)>) -> JsonValue {
    JsonValue::Object(
        members
            .into_iter()
            .map(|(key, value)| JsonMember { key: key.to_string(), value })
            .collect(),
    )
}

fn member<'a>(value: &'a JsonValue, key: &str) -> Option<&'a JsonValue> {
    match value {
        JsonValue::Object(members) => members.iter().find(|m| m.key == key).map(|m| &m.value),
        _ => None,
    }
}

#[test]
fn test_task_lifecycle_status_is_terminal() {
    assert!(!TaskLifecycleStatus::Queued.is_terminal());
    assert!(!TaskLifecycleStatus::Running.is_terminal());
    assert!(TaskLifecycleStatus::Completed.is_terminal());
    assert!(TaskLifecycleStatus::Failed.is_terminal());
}

#[test]
fn test_task_lifecycle_status_display_name() {
    assert_eq!(TaskLifecycleStatus::Queued.display_name(), "Queued");
    assert_eq!(TaskLifecycleStatus::Running.display_name(), "Running");
    assert_eq!(TaskLifecycleStatus::Completed.display_name(), "Completed");
    assert_eq!(TaskLifecycleStatus::Failed.display_name(), "Failed");
}

#[test]
fn test_workflow_node_type_category_display_name() {
    assert_eq!(WorkflowNodeTypeCategory::Task.display_name(), "Task");
    assert_eq!(WorkflowNodeTypeCategory::Validation.display_name(), "Validation");
    assert_eq!(WorkflowNodeTypeCategory::Review.display_name(), "Review");
    assert_eq!(WorkflowNodeTypeCategory::Integration.display_name(), "Integration");
}

#[test]
fn test_workflow_node_type_category_all() {
    let all = WorkflowNodeTypeCategory::all();
    assert_eq!(all.len(), 4);
    assert!(all.contains(&WorkflowNodeTypeCategory::Task));
    assert!(all.contains(&WorkflowNodeTypeCategory::Validation));
    assert!(all.contains(&WorkflowNodeTypeCategory::Review));
    assert!(all.contains(&WorkflowNodeTypeCategory::Integration));
}

#[test]
fn test_retry_behavior_default() {
    let default = RetryBehavior::default();
    assert_eq!(default.max_attempts, 3);
    assert_eq!(default.backoff_ms, 1000);
}

#[test]
fn test_workflow_definition_record_policy_for() {
    let record = WorkflowDefinitionRecord {
        id: uuid::Uuid::new_v4().as_u128(),
        name: "test".to_string(),
        nodes: vec![],
        edges: vec![],
        node_policies: vec![NodePolicy {
            node_id: "node-1".to_string(),
            required_reviews: 1,
            required_checks: vec![],
            retry_behavior: RetryBehavior::default(),
            validation_policy_ref: None,
        }],
        retry_behavior: RetryBehavior::default(),
        validation_policy_ref: None,
        trigger_metadata: Vec::new(),
    };

    assert!(record.policy_for("node-1").is_some());
    assert!(record.policy_for("node-2").is_none());
}

#[test]
fn test_workflow_definition_record_to_request() {
    let record = WorkflowDefinitionRecord {
        id: uuid::Uuid::new_v4().as_u128(),
        name: "my-workflow".to_string(),
        nodes: vec![WorkflowNode {
            id: "n1".to_string(),
            node_type: "task".to_string(),
            label: "Build".to_string(),
            configuration: object(vec![("repo", text("example/runtime"))]),
            runtime: object(vec![]),
        }],
        edges: vec![],
        node_policies: vec![],
        retry_behavior: RetryBehavior::default(),
        validation_policy_ref: Some("policy-ref".to_string()),
        trigger_metadata: vec![("key".to_string(), "value".to_string())],
    };

    let request = record.to_request();
    assert_eq!(request.name, "my-workflow");
    assert_eq!(request.nodes.len(), 1);
    assert_eq!(member(&request.nodes[0].configuration, "repo"), Some(&text("example/runtime")));
    assert_eq!(request.validation_policy_ref.as_deref(), Some("policy-ref"));
    assert_eq!(
        request
            .trigger_metadata
            .iter()
            .find(|(k, _)| k == "key")
            .map(|(_, v)| v.as_str()),
        Some("value")
    );
}

#[test]
fn policy_for_returns_the_first_policy_of_a_node() {
    let policy = |reviews: u16| NodePolicy {
        node_id: "node-1".to_string(),
        required_reviews: reviews,
        required_checks: vec![],
        retry_behavior: RetryBehavior::default(),
        validation_policy_ref: None,
    };
    let record = WorkflowDefinitionRecord {
        id: 7,
        name: "twice".to_string(),
        nodes: vec![],
        edges: vec![],
        node_policies: vec![policy(1), policy(2)],
        retry_behavior: RetryBehavior::default(),
        validation_policy_ref: None,
        trigger_metadata: Vec::new(),
    };
    assert_eq!(record.policy_for("node-1").map(|p| p.required_reviews), Some(1));
}

#[test]
fn comparison_operators_follow_the_value_type() {
    let number_ops = WorkflowComparisonOperator::supported_for(WorkflowValueType::Number);
    assert!(number_ops.contains(&WorkflowComparisonOperator::Gt));
    assert_eq!(number_ops.len(), 6);
    let bool_ops = WorkflowComparisonOperator::supported_for(WorkflowValueType::Boolean);
    assert_eq!(bool_ops, vec![WorkflowComparisonOperator::Eq, WorkflowComparisonOperator::Neq]);
    assert!(!WorkflowComparisonOperator::IsEmpty.requires_rhs());
    assert!(WorkflowComparisonOperator::Eq.requires_rhs());
    assert_eq!(WorkflowComparisonOperator::Gte.display_name(), "is greater than or equal to");
}

#[test]
fn primitives_have_display_names() {
    assert_eq!(WorkflowNodePrimitive::Llm.display_name(), "LLM");
    assert_eq!(WorkflowNodePrimitive::ExecuteShellCommand.display_name(), "Execute Shell Command");
}

fn node_type_of(primitive: WorkflowNodePrimitive) -> WorkflowNodeType {
    WorkflowNodeType {
        id: "custom".into(),
        label: "Custom".into(),
        primitive: Some(primitive),
        category: None,
        is_primitive: false,
        inputs: vec![],
        outputs: vec![],
        configure_time_fields: vec![],
        runtime_fields: vec![],
    }
}

#[test]
fn default_configuration_of_a_conditional_has_when_and_else_branches() {
    let expected = object(vec![(
        "branches",
        JsonValue::Array(vec![
            object(vec![
                (
                    "condition",
                    object(vec![
                        ("children", JsonValue::Array(vec![object(vec![("kind", text("predicate"))])])),
                        ("mode", text("all")),
                    ]),
                ),
                ("kind", text("when")),
                ("output_id", text("if_1")),
            ]),
            object(vec![("kind", text("else")), ("output_id", text("else"))]),
        ]),
    )]);
    let value = default_configuration_for_node_type(&node_type_of(WorkflowNodePrimitive::Conditional));
    assert_eq!(value, expected);
}

#[test]
fn default_configuration_of_globals_has_no_variables() {
    let value = default_configuration_for_node_type(&workflow_globals_node_type());
    assert_eq!(value, object(vec![("variables", JsonValue::Array(vec![]))]));
}

#[test]
fn default_configuration_of_other_nodes_is_empty() {
    let value = default_configuration_for_node_type(&node_type_of(WorkflowNodePrimitive::Llm));
    assert_eq!(value, JsonValue::Object(vec![]));
}
