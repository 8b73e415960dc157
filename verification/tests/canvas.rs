use neozed::canvas::{
    connect_ports, default_primitive_for_node, delete_edge, delete_node, effective_ports_for_node,
    normalized_session_id, run_failure_message, canvas_matches_run_task_id, conversation_work_dirs,
    run_node_remote_attachment, has_running_nodes, poll_run, RunPoll, conversation_title, plan_run_node_opening,
    RunNodeOpening, CanvasSelection, DockerConnectionOptions, RemoteConnectionOptions,
    NODE_HEIGHT, NODE_WIDTH,
};
use neozed::json::JsonValue;
use neozed::workflow::{
    editor_node_types, RetryBehavior, TaskDockerRemoteTarget, TaskRemoteTarget, TaskLifecycleStatus, TaskNodeStatus, TaskRecord, TaskStatusResponse,
    WorkflowConditionGroup, WorkflowConditionGroupMode, WorkflowConditionalBranch,
    WorkflowConditionalBranchKind, WorkflowConditionalConfiguration, WorkflowDefinitionRecord, WorkflowEdge,
    WorkflowNode, WorkflowNodePort, WorkflowNodePrimitive, WorkflowNodeType, WorkflowNodeTypeCategory,
};

fn empty_object() -> JsonValue {
    JsonValue::Object(Vec::new())
}

fn port(id: &str, label: &str) -> WorkflowNodePort {
    WorkflowNodePort { id: id.into(), label: label.into() }
}

fn sample_node_types() -> Vec<WorkflowNodeType> {
    editor_node_types(vec![
        WorkflowNodeType {
            id: "task".into(),
            label: "Task".into(),
            primitive: Some(WorkflowNodePrimitive::Llm),
            category: None,
            is_primitive: false,
            inputs: vec![port("default", "Input")],
            outputs: vec![port("success", "Success")],
            configure_time_fields: vec![],
            runtime_fields: vec![],
        },
        WorkflowNodeType {
            id: "validation".into(),
            label: "Validation".into(),
            primitive: Some(WorkflowNodePrimitive::Conditional),
            category: None,
            is_primitive: false,
            inputs: vec![port("default", "Input")],
            outputs: vec![port("passed", "Passed")],
            configure_time_fields: vec![],
            runtime_fields: vec![],
        },
    ])
}

fn failed_run(failure_message: Option<&str>, output: &str) -> TaskStatusResponse {
    TaskStatusResponse {
        task: TaskRecord {
            id: uuid::Uuid::new_v4().as_u128(),
            title: "Broken run".into(),
            source_repo: "/tmp/demo".into(),
            status: TaskLifecycleStatus::Failed,
            workflow_id: None,
            task_description: None,
        },
        workflow: None,
        workspace_path: Some("/tmp/demo".into()),
        remote_target: None,
        nodes: vec![TaskNodeStatus {
            id: "node-1".into(),
            node_type: "task".into(),
            primitive: None,
            category: Some(WorkflowNodeTypeCategory::Task),
            label: "Build".into(),
            status: TaskLifecycleStatus::Failed,
            output: Some(output.into()),
            session_id: None,
            artifacts: Vec::new(),
        }],
        outcome: None,
        agent: None,
        lease: None,
        validation: None,
        integration: None,
        failure_message: failure_message.map(|m| m.to_string()),
        agents: None,
    }
}

fn node(id: &str, node_type: &str) -> WorkflowNode {
    WorkflowNode {
        id: id.into(),
        node_type: node_type.into(),
        label: id.to_uppercase(),
        configuration: empty_object(),
        runtime: empty_object(),
    }
}

fn edge(from: &str, out: &str, to: &str, input: &str) -> WorkflowEdge {
    WorkflowEdge {
        from_node_id: from.into(),
        from_output_id: out.into(),
        to_node_id: to.into(),
        to_input_id: input.into(),
    }
}

fn workflow(nodes: Vec<WorkflowNode>, edges: Vec<WorkflowEdge>) -> WorkflowDefinitionRecord {
    WorkflowDefinitionRecord {
        id: 1,
        name: "flow".into(),
        nodes,
        edges,
        node_policies: vec![],
        retry_behavior: RetryBehavior::default(),
        validation_policy_ref: None,
        trigger_metadata: Vec::new(),
    }
}

#[test]
fn test_try_open_run_node_in_center_skips_blank_session_id() {
    assert_eq!(normalized_session_id("   "), None);
}

#[test]
fn test_try_open_run_node_in_center_passes_trimmed_session_id_to_opener() {
    assert_eq!(normalized_session_id(" session-1 "), Some("session-1"));
}

#[test]
fn test_canvas_nodes_are_sized_for_visible_port_contracts() {
    assert!(NODE_WIDTH as f32 >= 280.0);
    assert!(NODE_HEIGHT as f32 >= 120.0);
}

#[test]
fn test_run_failure_message_prefers_runtime_failure_message() {
    let run = failed_run(Some("codex execution failed: timeout"), "node output");
    assert_eq!(run_failure_message(&run).as_deref(), Some("codex execution failed: timeout"));
}

#[test]
fn test_run_failure_message_falls_back_to_failed_node_output() {
    let run = failed_run(None, "missing green background");
    assert_eq!(run_failure_message(&run).as_deref(), Some("Build failed: missing green background"));
}

#[test]
fn run_failure_message_falls_back_to_the_task_title() {
    let run = failed_run(Some("   "), "  ");
    assert_eq!(run_failure_message(&run).as_deref(), Some("Broken run failed"));
    let mut running = failed_run(None, "x");
    running.task.status = TaskLifecycleStatus::Running;
    assert_eq!(run_failure_message(&running), None);
}

#[test]
fn test_effective_ports_for_conditional_node_use_configuration_branches() {
    let node_types = sample_node_types();
    let node = node("conditional-1", "validation");
    let configuration = WorkflowConditionalConfiguration {
        branches: vec![
            WorkflowConditionalBranch {
                output_id: "if_1".into(),
                kind: WorkflowConditionalBranchKind::When,
                condition: Some(WorkflowConditionGroup { mode: WorkflowConditionGroupMode::All, children: vec![] }),
            },
            WorkflowConditionalBranch {
                output_id: "if_2".into(),
                kind: WorkflowConditionalBranchKind::When,
                condition: Some(WorkflowConditionGroup { mode: WorkflowConditionGroupMode::Any, children: vec![] }),
            },
            WorkflowConditionalBranch {
                output_id: "else".into(),
                kind: WorkflowConditionalBranchKind::Else,
                condition: None,
            },
        ],
    };

    let output_ports = effective_ports_for_node(&node_types, &node, false, &configuration);

    assert_eq!(output_ports.len(), 3);
    assert_eq!(output_ports[0].id, "if_1");
    assert_eq!(output_ports[0].label, "If");
    assert_eq!(output_ports[1].label, "Else If 1");
    assert_eq!(output_ports[2].label, "Else");

    let input_ports = effective_ports_for_node(&node_types, &node, true, &configuration);
    assert_eq!(input_ports.len(), 1);
    assert_eq!(input_ports[0].id, "default");
}

#[test]
fn test_effective_ports_for_globals_node_are_empty() {
    let node_types = sample_node_types();
    let node = node("globals-1", "workflow_globals");
    let configuration = WorkflowConditionalConfiguration::default();
    assert!(effective_ports_for_node(&node_types, &node, true, &configuration).is_empty());
    assert!(effective_ports_for_node(&node_types, &node, false, &configuration).is_empty());
}

#[test]
fn test_legacy_node_category_falls_back_to_primitive_palette() {
    assert_eq!(
        default_primitive_for_node("legacy-task", Some(WorkflowNodeTypeCategory::Task)),
        WorkflowNodePrimitive::Llm
    );
    assert_eq!(
        default_primitive_for_node("legacy-integration", Some(WorkflowNodeTypeCategory::Integration)),
        WorkflowNodePrimitive::ExecuteShellCommand
    );
    assert_eq!(default_primitive_for_node("conditional", None), WorkflowNodePrimitive::Conditional);
}

#[test]
fn test_canvas_matches_run_task_id() {
    let run = failed_run(None, "x");
    let task_id = run.task.id;
    assert!(canvas_matches_run_task_id(Some(&run), task_id));
    assert!(!canvas_matches_run_task_id(Some(&run), task_id.wrapping_add(1)));
    assert!(!canvas_matches_run_task_id(None, task_id));
}

#[test]
fn delete_node_removes_the_node_and_its_edges() {
    let mut flow = workflow(
        vec![node("a", "task"), node("b", "task"), node("c", "task")],
        vec![edge("a", "success", "b", "default"), edge("b", "success", "c", "default"), edge("a", "success", "c", "default")],
    );
    let selection = delete_node(&mut flow, "b");
    assert_eq!(selection, CanvasSelection::Nothing);
    assert_eq!(flow.nodes.iter().map(|n| n.id.as_str()).collect::<Vec<_>>(), vec!["a", "c"]);
    assert_eq!(flow.edges.len(), 1);
    assert_eq!(flow.edges[0].from_node_id, "a");
    assert_eq!(flow.edges[0].to_node_id, "c");
}

#[test]
fn delete_edge_removes_only_that_edge() {
    let mut flow = workflow(
        vec![node("a", "task"), node("b", "task")],
        vec![edge("a", "success", "b", "default")],
    );
    let selection = delete_edge(&mut flow, "a", "success", "b", "default");
    assert_eq!(selection, CanvasSelection::Nothing);
    assert!(flow.edges.is_empty());
    assert_eq!(flow.nodes.len(), 2);
}

#[test]
fn connect_ports_adds_each_edge_once() {
    let mut flow = workflow(vec![node("a", "task"), node("b", "task")], vec![]);
    assert!(connect_ports(&mut flow, "a", "success", "b", "default"));
    assert_eq!(flow.edges.len(), 1);
    assert_eq!(flow.edges[0].from_output_id, "success");
    assert_eq!(flow.edges[0].to_input_id, "default");
    assert!(!connect_ports(&mut flow, "a", "success", "b", "default"));
    assert!(!connect_ports(&mut flow, "a", "success", "a", "default"));
    assert_eq!(flow.edges.len(), 1);
}

#[test]
fn test_conversation_work_dirs_uses_workspace_path() {
    let work_dirs = conversation_work_dirs(Some(" /workspaces/task-1/workspace "));

    assert_eq!(work_dirs.unwrap(), vec!["/workspaces/task-1/workspace".to_string()]);
}

#[test]
fn conversation_work_dirs_skips_a_missing_or_blank_path() {
    assert_eq!(conversation_work_dirs(None), None);
    assert_eq!(conversation_work_dirs(Some("   ")), None);
}

#[test]
fn test_run_node_remote_attachment_builds_docker_connection_options() {
    let work_dirs = vec!["/workspaces/demo/runtime-task".to_string()];
    let target = TaskRemoteTarget::Docker(TaskDockerRemoteTarget {
        name: "runtime-dev-container".to_string(),
        container_id: "runtime-dev-container".to_string(),
        remote_user: "root".to_string(),
        use_podman: false,
    });
    let attachment =
        run_node_remote_attachment(Some(&target), Some(&work_dirs)).expect("docker attachment");

    assert_eq!(attachment.paths, vec!["/workspaces/demo/runtime-task".to_string()]);
    assert!(matches!(
        attachment.connection_options,
        RemoteConnectionOptions::Docker(DockerConnectionOptions {
            container_id,
            remote_user,
            ..
        }) if container_id == "runtime-dev-container" && remote_user == "root"
    ));
}

#[test]
fn run_node_remote_attachment_needs_a_target_and_directories() {
    let target = TaskRemoteTarget::Docker(TaskDockerRemoteTarget {
        name: "box".to_string(),
        container_id: "c1".to_string(),
        remote_user: "dev".to_string(),
        use_podman: true,
    });
    let dirs = vec!["/w".to_string()];
    let empty: Vec<String> = Vec::new();
    assert!(run_node_remote_attachment(None, Some(&dirs)).is_none());
    assert!(run_node_remote_attachment(Some(&target), None).is_none());
    assert!(run_node_remote_attachment(Some(&target), Some(&empty)).is_none());
    let a = run_node_remote_attachment(Some(&target), Some(&dirs)).unwrap();
    match a.connection_options {
        RemoteConnectionOptions::Docker(o) => {
            assert_eq!(o.name, "box");
            assert!(o.use_podman);
            assert!(!o.upload_binary_over_docker_exec);
        }
    }
}

#[test]
fn a_run_moves_while_its_task_or_a_node_runs() {
    assert!(!has_running_nodes(None));
    let mut run = failed_run(None, "boom");
    assert!(!has_running_nodes(Some(&run)));
    run.nodes[0].status = TaskLifecycleStatus::Running;
    assert!(has_running_nodes(Some(&run)));
    run.nodes[0].status = TaskLifecycleStatus::Completed;
    run.task.status = TaskLifecycleStatus::Running;
    assert!(has_running_nodes(Some(&run)));
}

#[test]
fn a_failed_run_is_announced_once_and_stops_the_polling() {
    let failed = failed_run(Some("  worker crashed "), "boom");
    let mut running = failed_run(None, "boom");
    running.task.status = TaskLifecycleStatus::Running;
    assert_eq!(poll_run(None, &running), RunPoll { failure: None, stop: false });
    assert_eq!(
        poll_run(Some(&running), &failed),
        RunPoll { failure: Some("worker crashed".to_string()), stop: true }
    );
    assert_eq!(poll_run(Some(&failed), &failed), RunPoll { failure: None, stop: true });
}

#[test]
fn run_node_conversations_open_where_the_run_worked() {
    assert_eq!(conversation_title("Release", "Build"), "Release / Build - conversation");
    let dirs = vec!["/w".to_string()];
    let target = TaskRemoteTarget::Docker(TaskDockerRemoteTarget {
        name: "box".to_string(),
        container_id: "c1".to_string(),
        remote_user: "dev".to_string(),
        use_podman: false,
    });
    assert!(matches!(plan_run_node_opening("  ", true, Some(&target), Some(&dirs), true), RunNodeOpening::Markdown));
    assert!(matches!(
        plan_run_node_opening(" s1 ", true, Some(&target), Some(&dirs), true),
        RunNodeOpening::InWorkspace { session_id } if session_id == "s1"
    ));
    match plan_run_node_opening("s1", false, Some(&target), Some(&dirs), false) {
        RunNodeOpening::Remote { session_id, attachment } => {
            assert_eq!(session_id, "s1");
            assert_eq!(attachment.paths, dirs);
        }
        other => panic!("expected a remote opening, got {other:?}"),
    }
    assert!(matches!(
        plan_run_node_opening("s1", false, None, Some(&dirs), true),
        RunNodeOpening::NewWorkspace { work_dirs, .. } if work_dirs == dirs
    ));
    assert!(matches!(plan_run_node_opening("s1", false, None, Some(&dirs), false), RunNodeOpening::Markdown));
    assert!(matches!(plan_run_node_opening("s1", false, None, None, true), RunNodeOpening::Markdown));
}

#[test]
fn the_editor_catalog_gains_the_globals_entry_once() {
    let catalog = editor_node_types(vec![]);
    assert_eq!(catalog.len(), 1);
    let globals = &catalog[0];
    assert_eq!(globals.id, "workflow_globals");
    assert_eq!(globals.label, "Globals");
    assert_eq!(globals.primitive, Some(WorkflowNodePrimitive::Globals));
    assert_eq!(globals.category, None);
    assert!(globals.is_primitive && globals.inputs.is_empty() && globals.outputs.is_empty());
    let again = editor_node_types(catalog);
    assert_eq!(again.len(), 1);
    assert_eq!(again[0].id, "workflow_globals");
}
