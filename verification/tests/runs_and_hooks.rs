use neozed::hooks::{ItemTabContextMenuHooks, PanelOverflowContextMenuHooks};
use neozed::runs::{
    filtered_runs, grouped_runs_from_records, run_matches_query, run_request_from_form, update_matches,
    sort_workflows_by_name, RunFormError, RunSearch, RunsContent, WorkflowPickerDelegate, WorkflowRunsView,
};
use neozed::workflow::{RetryBehavior, TaskLifecycleStatus, TaskRecord, WorkflowDefinitionRecord};

fn named_workflow(id: u128, name: &str) -> WorkflowDefinitionRecord {
    WorkflowDefinitionRecord {
        id,
        name: name.to_string(),
        nodes: vec![],
        edges: vec![],
        node_policies: vec![],
        retry_behavior: RetryBehavior::default(),
        validation_policy_ref: None,
        trigger_metadata: Vec::new(),
    }
}

fn sample_run(title: &str, source_repo: &str, status: TaskLifecycleStatus) -> TaskRecord {
    TaskRecord {
        id: uuid::Uuid::new_v4().as_u128(),
        title: title.to_string(),
        source_repo: source_repo.to_string(),
        status,
        workflow_id: None,
        task_description: None,
    }
}

#[test]
fn workflow_runs_view_filters_runs_by_search_query() {
    let runs = vec![
        sample_run("Deploy release", "neo-zed", TaskLifecycleStatus::Running),
        sample_run("Triage failures", "zed", TaskLifecycleStatus::Failed),
    ];
    let mut search = RunSearch { search_query: String::new() };

    assert!(search.set_search_query("zed".to_string()));
    let filtered = filtered_runs(&runs, &search.search_query)
        .into_iter()
        .map(|i| runs[i].title.clone())
        .collect::<Vec<_>>();
    assert_eq!(filtered, vec!["Deploy release".to_string(), "Triage failures".to_string()]);

    assert!(search.set_search_query("failed".to_string()));
    let filtered = filtered_runs(&runs, &search.search_query)
        .into_iter()
        .map(|i| runs[i].title.clone())
        .collect::<Vec<_>>();
    assert_eq!(filtered, vec!["Triage failures".to_string()]);
    assert!(!search.set_search_query("failed".to_string()));
}

#[test]
fn blank_search_keeps_every_run_and_matching_ignores_ascii_case() {
    let runs = vec![
        sample_run("Deploy release", "neo-zed", TaskLifecycleStatus::Running),
        sample_run("Triage failures", "zed", TaskLifecycleStatus::Failed),
    ];
    assert_eq!(filtered_runs(&runs, "   "), vec![0, 1]);
    assert_eq!(filtered_runs(&runs, "  DEPLOY "), vec![0]);
    assert!(run_matches_query(&runs[0], "running"));
    assert!(!run_matches_query(&runs[0], "failed"));
}

#[test]
fn grouped_runs_split_by_status() {
    let runs = vec![
        sample_run("a", "r", TaskLifecycleStatus::Queued),
        sample_run("b", "r", TaskLifecycleStatus::Completed),
        sample_run("c", "r", TaskLifecycleStatus::Running),
        sample_run("d", "r", TaskLifecycleStatus::Failed),
    ];
    let groups = grouped_runs_from_records(&runs);
    assert_eq!(groups.active.iter().map(|r| r.title.as_str()).collect::<Vec<_>>(), vec!["a", "c"]);
    assert_eq!(groups.completed.iter().map(|r| r.title.as_str()).collect::<Vec<_>>(), vec!["b"]);
    assert_eq!(groups.failed.iter().map(|r| r.title.as_str()).collect::<Vec<_>>(), vec!["d"]);
}

#[test]
fn picker_matches_workflow_names_and_clamps_the_selection() {
    let names = vec!["Build".to_string(), "Deploy".to_string(), "Rebuild all".to_string()];
    let (matches, selected) = update_matches(&names, " BUILD ", false, 5);
    assert_eq!(matches, vec![0, 2]);
    assert_eq!(selected, 1);
    let (matches, selected) = update_matches(&names, "", false, 1);
    assert_eq!(matches, vec![0, 1, 2]);
    assert_eq!(selected, 1);
    let (matches, selected) = update_matches(&names, "zzz", false, 1);
    assert!(matches.is_empty());
    assert_eq!(selected, 0);
    let (matches, selected) = update_matches(&names, "build", true, 1);
    assert!(matches.is_empty());
    assert_eq!(selected, 0);
}

#[test]
fn run_form_errors_name_the_missing_field() {
    assert_eq!(RunFormError::NoWorkflow.message(), "Select a workflow first");
    let missing_title = run_request_from_form(true, "  ", "repo", "");
    assert!(matches!(missing_title, Err(RunFormError::MissingTitle)));
    let missing_repo = run_request_from_form(true, "Title", " ", "");
    assert!(matches!(missing_repo, Err(RunFormError::MissingSourceRepo)));
    let no_workflow = run_request_from_form(false, "Title", "repo", "");
    assert!(matches!(no_workflow, Err(RunFormError::NoWorkflow)));
    let ok = run_request_from_form(true, " Title ", " repo ", "  ").unwrap();
    assert_eq!(ok.title, "Title");
    assert_eq!(ok.source_repo, "repo");
    assert_eq!(ok.task_description, None);
}

#[test]
fn setting_a_named_hook_replaces_it_and_moves_it_last() {
    let mut hooks: ItemTabContextMenuHooks<u32> = ItemTabContextMenuHooks::new();
    hooks.set_named("a", 1);
    hooks.set_named("b", 2);
    hooks.set_named("a", 3);
    assert_eq!(hooks.hooks.iter().map(|h| (h.id.as_str(), h.handler)).collect::<Vec<_>>(), vec![("b", 2), ("a", 3)]);
    hooks.clear_named("b");
    assert_eq!(hooks.hooks.iter().map(|h| h.id.as_str()).collect::<Vec<_>>(), vec!["a"]);

    let mut panel: PanelOverflowContextMenuHooks<&str> = PanelOverflowContextMenuHooks::new();
    panel.set_named("x", "first");
    panel.clear_named("missing");
    assert_eq!(panel.hooks.len(), 1);
    panel.clear_named("x");
    assert!(panel.hooks.is_empty());
}

#[test]
fn picker_lists_workflows_by_lower_cased_name() {
    let sorted = sort_workflows_by_name(vec![
        named_workflow(1, "Zeta"),
        named_workflow(2, "alpha"),
        named_workflow(3, "Beta"),
        named_workflow(4, "ALPHA"),
    ]);
    let names: Vec<&str> = sorted.iter().map(|w| w.name.as_str()).collect();
    assert_eq!(names, vec!["alpha", "ALPHA", "Beta", "Zeta"]);
}

#[test]
fn picker_delegate_loads_matches_and_confirms() {
    let mut delegate = WorkflowPickerDelegate::new();
    assert!(delegate.loading);
    delegate.update_matches("");
    assert_eq!(delegate.match_count(), 0);
    delegate.finish_loading(Ok(vec![named_workflow(1, "Zeta"), named_workflow(2, "alpha"), named_workflow(3, "Beta")]));
    assert!(!delegate.loading);
    assert_eq!(delegate.matches, vec![0, 1, 2]);
    assert_eq!(delegate.workflows[0].name, "alpha");
    delegate.set_selected_index(7);
    assert_eq!(delegate.selected_index, 2);
    delegate.update_matches("  BE ");
    assert_eq!(delegate.matches, vec![1]);
    assert_eq!(delegate.selected_index, 0);
    assert_eq!(delegate.confirm(false), Some(1));
    assert_eq!(delegate.confirm(true), None);
    delegate.update_matches("nothing");
    assert_eq!(delegate.confirm(false), None);
    delegate.finish_loading(Err("offline".to_string()));
    assert_eq!(delegate.load_error.as_deref(), Some("offline"));
    assert!(delegate.workflows.is_empty());
}

#[test]
fn runs_view_fetches_and_keeps_runs_on_errors() {
    let mut view = WorkflowRunsView::new();
    assert!(view.loading && view.runs.is_empty() && view.error.is_none());
    view.begin_fetch();
    assert!(view.loading);
    view.finish_fetch(Ok(vec![
        sample_run("Deploy release", "neo-zed", TaskLifecycleStatus::Running),
        sample_run("Triage failures", "zed", TaskLifecycleStatus::Failed),
    ]));
    assert!(!view.loading);
    assert_eq!(view.runs.len(), 2);
    view.begin_fetch();
    assert!(!view.loading);
    view.finish_fetch(Err("connection refused".to_string()));
    assert_eq!(view.runs.len(), 2);
    assert_eq!(view.error.as_deref(), Some("connection refused"));
    view.begin_fetch();
    assert_eq!(view.error, None);
    view.discard_failed("task is running".to_string());
    assert_eq!(view.error.as_deref(), Some("task is running"));
    assert!(view.search.set_search_query("triage".to_string()));
    assert_eq!(view.filtered_runs(), vec![1]);
}

#[test]
fn runs_view_content_follows_loading_error_and_search() {
    let mut view = WorkflowRunsView::new();
    assert!(matches!(view.content(), RunsContent::Loading));
    view.finish_fetch(Ok(vec![]));
    assert!(matches!(view.content(), RunsContent::NoRuns));
    view.finish_fetch(Ok(vec![
        sample_run("Deploy release", "neo-zed", TaskLifecycleStatus::Running),
        sample_run("Triage failures", "zed", TaskLifecycleStatus::Failed),
        sample_run("Ship docs", "zed", TaskLifecycleStatus::Completed),
    ]));
    match view.content() {
        RunsContent::Groups(groups) => {
            assert_eq!(groups.active.len(), 1);
            assert_eq!(groups.active[0].title, "Deploy release");
            assert_eq!(groups.completed[0].title, "Ship docs");
            assert_eq!(groups.failed[0].title, "Triage failures");
        }
        other => panic!("expected groups, got {other:?}"),
    }
    assert!(view.search.set_search_query("nothing like it".to_string()));
    assert!(matches!(view.content(), RunsContent::NoMatches));
    view.discard_failed("server down".to_string());
    match view.content() {
        RunsContent::Error(message) => assert_eq!(message, "server down"),
        other => panic!("expected the error, got {other:?}"),
    }
}
