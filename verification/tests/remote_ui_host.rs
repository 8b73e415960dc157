use neozed::remote_ui::{
    RegisteredRemoteUiWidget, RemoteViewNode, RemoteViewNodeKind, RemoteViewTree, StripSide, WidgetSize,
    WidgetSurface,
};
use neozed::remote_ui::kind_label;
use neozed::remote_ui_host::{
    begin_event, begin_reload, finish_event, finish_panel_reload, finish_widget_reload, EventFollowUp,
    EventOutcome, EventStep, HostedView, ReloadStep, RemoteViewState, plan_strip_refresh, MountedRemoteUiWidget,
    StripPlan, StripSlot, remount_panel, MountedRemoteUiPanel,
};
use neozed::remote_ui::DockPosition;
use neozed::remote_ui_registry::RegisteredRemoteUiPanel;

fn fresh() -> RemoteViewState {
    RemoteViewState { instance_id: None, tree: None, loading: false, error_message: None }
}

fn tree(kinds: Vec<RemoteViewNodeKind>) -> RemoteViewTree {
    let mut nodes = vec![RemoteViewNode {
        node_id: "root".into(),
        parent_id: None,
        kind: RemoteViewNodeKind::Row,
        properties: vec![],
    }];
    for (i, kind) in kinds.into_iter().enumerate() {
        nodes.push(RemoteViewNode { node_id: format!("n{i}"), parent_id: Some("root".into()), kind, properties: vec![] });
    }
    RemoteViewTree { revision: 1, root_id: "root".into(), nodes }
}

fn titlebar_widget() -> RegisteredRemoteUiWidget {
    RegisteredRemoteUiWidget {
        qualified_widget_id: "ext::w".into(),
        extension_id: "ext".into(),
        root_view: "w".into(),
        surface: WidgetSurface::Titlebar,
        side: StripSide::Right,
        size: WidgetSize::Small,
        priority: 1,
        min_width: None,
        max_width: None,
        refresh_interval_seconds: None,
    }
}

#[test]
fn reload_stops_quietly_while_the_extension_is_not_loaded() {
    let mut state = fresh();
    assert_eq!(begin_reload(&mut state, HostedView::Panel, "ext::p", Some("extension `ext` is not loaded")), ReloadStep::Stopped);
    assert_eq!(state.error_message, None);
    assert_eq!(begin_reload(&mut state, HostedView::Panel, "ext::p", Some("boom")), ReloadStep::Stopped);
    assert_eq!(state.error_message.as_deref(), Some("Extension panel `ext::p` reload failed: boom"));
    assert_eq!(begin_reload(&mut state, HostedView::Panel, "ext::p", None), ReloadStep::Render { instance_id: None });
    assert!(state.loading);
    assert_eq!(state.error_message, None);
}

#[test]
fn panel_reload_keeps_the_rendered_tree() {
    let mut state = fresh();
    begin_reload(&mut state, HostedView::Panel, "ext::p", None);
    finish_panel_reload(&mut state, "ext::p", Ok((7, tree(vec![]))));
    assert_eq!(state.instance_id, Some(7));
    assert!(state.tree.is_some());
    assert!(!state.loading);
    finish_panel_reload(&mut state, "ext::p", Err("gone".into()));
    assert!(state.tree.is_some());
    assert_eq!(state.error_message.as_deref(), Some("Extension panel `ext::p` reload failed: gone"));
}

#[test]
fn widget_reload_drops_a_tree_that_does_not_fit() {
    let widget = titlebar_widget();
    let mut state = fresh();
    finish_widget_reload(&mut state, &widget, Ok((3, tree(vec![RemoteViewNodeKind::Icon("i.svg".into())]))));
    assert!(state.tree.is_some());
    assert_eq!(state.error_message, None);
    finish_widget_reload(&mut state, &widget, Ok((3, tree(vec![RemoteViewNodeKind::Toggle(true)]))));
    assert!(state.tree.is_none());
    assert_eq!(
        state.error_message.as_deref(),
        Some("Extension widget `ext::w` validation failed: widget `ext::w` uses unsupported element Toggle(true) for this slot")
    );
}

#[test]
fn events_reach_only_opened_views() {
    let mut state = fresh();
    assert_eq!(begin_event(&mut state, HostedView::Widget, "ext::w", None), EventStep::Ignored);
    state.instance_id = Some(9);
    assert_eq!(begin_event(&mut state, HostedView::Widget, "ext::w", None), EventStep::Dispatch(9));
    assert_eq!(begin_event(&mut state, HostedView::Widget, "ext::w", Some("lost")), EventStep::Failed);
    assert_eq!(state.error_message.as_deref(), Some("Extension widget `ext::w` event setup failed: lost"));
    assert_eq!(finish_event(&mut state, HostedView::Panel, "Sample", Ok(EventOutcome::Rerender)), EventFollowUp::Reload);
    assert_eq!(
        finish_event(&mut state, HostedView::Panel, "Sample", Ok(EventOutcome::ShowError("no".into()))),
        EventFollowUp::Toast("no".into())
    );
    assert_eq!(finish_event(&mut state, HostedView::Panel, "Sample", Err("x".into())), EventFollowUp::Nothing);
    assert_eq!(state.error_message.as_deref(), Some("Extension panel `Sample` event failed: x"));
}

#[test]
fn node_kinds_are_written_as_debug_writes_them() {
    assert_eq!(kind_label(&RemoteViewNodeKind::Text("say \"hi\"\n".into())), "Text(\"say \\\"hi\\\"\\n\")");
    assert_eq!(format!("{:?}", "say \"hi\"\n"), "\"say \\\"hi\\\"\\n\"");
    assert_eq!(kind_label(&RemoteViewNodeKind::Badge("a\\b\u{1b}".into())), "Badge(\"a\\\\b\\u{1b}\")");
    assert_eq!(
        kind_label(&RemoteViewNodeKind::ProgressBar(neozed::remote_ui::ProgressBarProps { value: 20, max_value: 100 })),
        "ProgressBar(ProgressBarProps { value: 20, max_value: 100 })"
    );
    assert_eq!(kind_label(&RemoteViewNodeKind::Checkbox(false)), "Checkbox(false)");
    assert_eq!(kind_label(&RemoteViewNodeKind::Spacer), "Spacer");
    let hidden = "a\u{200b}b";
    assert_eq!(kind_label(&RemoteViewNodeKind::Icon(hidden.into())), format!("Icon({:?})", hidden));
    assert_eq!(kind_label(&RemoteViewNodeKind::Icon(hidden.into())), "Icon(\"a\\u{200b}b\")");
}

fn strip_widget(id: &str, root_view: &str) -> RegisteredRemoteUiWidget {
    RegisteredRemoteUiWidget { qualified_widget_id: id.into(), root_view: root_view.into(), ..titlebar_widget() }
}

fn mounted(id: &str, root_view: &str, loaded: bool, loading: bool) -> MountedRemoteUiWidget {
    MountedRemoteUiWidget {
        descriptor: strip_widget(id, root_view),
        state: RemoteViewState {
            instance_id: if loaded { Some(1) } else { None },
            tree: if loaded { Some(tree(vec![])) } else { None },
            loading,
            error_message: None,
        },
    }
}

#[test]
fn strip_refresh_keeps_reloads_mounts_and_closes_widgets() {
    let items = vec![
        mounted("ext::a", "ra", true, false),
        mounted("ext::b", "rb", true, false),
        mounted("ext::c", "rc", true, false),
        mounted("ext::e", "re", false, false),
        mounted("ext::f", "rf", false, true),
    ];
    let descriptors = vec![
        strip_widget("ext::a", "ra"),
        strip_widget("ext::b", "rb2"),
        strip_widget("ext::d", "rd"),
        strip_widget("ext::e", "re"),
        strip_widget("ext::f", "rf"),
        strip_widget("ext::a", "ra"),
    ];
    assert_eq!(
        plan_strip_refresh(&items, &descriptors),
        StripPlan {
            slots: vec![
                StripSlot::Keep { from: 0, reset: false, reload: false },
                StripSlot::Keep { from: 1, reset: true, reload: true },
                StripSlot::Mount,
                StripSlot::Keep { from: 3, reset: false, reload: true },
                StripSlot::Keep { from: 4, reset: false, reload: false },
                StripSlot::Mount,
            ],
            close: vec![2],
        }
    );
}

#[test]
fn strip_refresh_uses_the_last_widget_mounted_under_an_id() {
    let items = vec![mounted("ext::a", "old", true, false), mounted("ext::a", "ra", true, false)];
    let plan = plan_strip_refresh(&items, &vec![]);
    assert_eq!(plan.close, vec![1]);
    let plan = plan_strip_refresh(&items, &vec![strip_widget("ext::a", "ra")]);
    assert_eq!(plan.slots, vec![StripSlot::Keep { from: 1, reset: false, reload: false }]);
    assert!(plan.close.is_empty());
}

fn panel(root_view: &str) -> RegisteredRemoteUiPanel {
    RegisteredRemoteUiPanel {
        qualified_panel_id: "ext::usage".into(),
        extension_id: "ext".into(),
        root_view: root_view.into(),
        title: "Usage".into(),
        default_dock: DockPosition::Right,
        activation_priority: 10,
    }
}

#[test]
fn remounting_a_panel_reloads_it_only_when_needed() {
    let loaded = RemoteViewState { instance_id: Some(4), tree: Some(tree(vec![])), loading: false, error_message: None };
    let mut p = MountedRemoteUiPanel { descriptor: panel("usage.panel"), state: loaded };
    assert!(!remount_panel(&mut p, panel("usage.panel")));
    assert_eq!(p.state.instance_id, Some(4));
    assert!(remount_panel(&mut p, panel("usage.panel.v2")));
    assert_eq!(p.descriptor.root_view, "usage.panel.v2");
    assert_eq!(p.state.instance_id, None);
    p.state.loading = true;
    assert!(!remount_panel(&mut p, panel("usage.panel.v2")));
    p.state.loading = false;
    p.state.error_message = Some("boom".into());
    assert!(remount_panel(&mut p, panel("usage.panel.v2")));
}
