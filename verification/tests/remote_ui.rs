use neozed::remote_ui::{
    palette_search_text, qualified_remote_ui_id, validate_widget_tree, widget_width_bounds, ContextActionTarget,
    MenuLocation, ProgressBarProps, node_is_clickable, node_tooltip, RemoteViewProperty, RegisteredRemoteUiWidget, RemoteViewNode, RemoteViewNodeKind, RemoteViewTree,
    StripSide, WidgetSide, WidgetSize, WidgetSurface, FooterWidgetZone,
};
use neozed::text::substring_match_positions;
use neozed::remote_ui_registry::{
    remote_ui_command_palette_results, ExtensionCommandManifestEntry,
    ExtensionContextActionManifestEntry, ExtensionMenuManifestEntry, ExtensionPanelManifestEntry,
    FooterWidgetManifestEntry, RegisteredRemoteUiPaletteItem, RemoteUiManifest, RemoteUiRegistry,
    TitlebarWidgetManifestEntry,
};

fn command(title: &str, description: &str, palette: bool) -> ExtensionCommandManifestEntry {
    ExtensionCommandManifestEntry { title: title.into(), description: description.into(), palette }
}

fn menu(id: &str, location: MenuLocation, title: &str, command: &str, panel: Option<&str>, priority: u32) -> ExtensionMenuManifestEntry {
    ExtensionMenuManifestEntry {
        id: id.into(),
        location,
        title: title.into(),
        command: command.into(),
        panel: panel.map(|p| p.to_string()),
        group: None,
        priority,
    }
}

fn action(id: &str, target: ContextActionTarget, title: &str, command: &str, priority: u32) -> ExtensionContextActionManifestEntry {
    ExtensionContextActionManifestEntry {
        id: id.into(),
        target,
        title: title.into(),
        command: command.into(),
        group: None,
        priority,
    }
}

fn node(node_id: &str, parent_id: Option<&str>, kind: RemoteViewNodeKind) -> RemoteViewNode {
    RemoteViewNode {
        node_id: node_id.into(),
        parent_id: parent_id.map(ToOwned::to_owned),
        kind,
        properties: Vec::new(),
    }
}

fn widget(id: &str, surface: WidgetSurface, side: StripSide, size: WidgetSize) -> RegisteredRemoteUiWidget {
    RegisteredRemoteUiWidget {
        qualified_widget_id: id.into(),
        extension_id: "remote-ui".into(),
        root_view: "root-view".into(),
        surface,
        side,
        size,
        priority: 10,
        min_width: None,
        max_width: None,
        refresh_interval_seconds: None,
    }
}

fn titles(entries: &[neozed::remote_ui_registry::RegisteredRemoteUiContextMenuEntry]) -> Vec<&str> {
    entries.iter().map(|e| e.title.as_str()).collect()
}

fn command_ids(entries: &[neozed::remote_ui_registry::RegisteredRemoteUiContextMenuEntry]) -> Vec<&str> {
    entries.iter().map(|e| e.command_id.as_str()).collect()
}

#[test]
fn qualified_ids_are_namespaced() {
    assert_eq!(qualified_remote_ui_id("remote-ui", "sample-open"), "remote-ui::sample-open");
}

#[test]
fn unregistering_an_extension_removes_its_commands_and_panels() {
    let mut registry = RemoteUiRegistry::new();
    let mut remote_ui = RemoteUiManifest::new();
    remote_ui.insert_command("sample-open".into(), command("Open Sample", "Open the sample panel", true));
    remote_ui.insert_panel(
        "sample-panel".into(),
        ExtensionPanelManifestEntry {
            title: "Sample".into(),
            icon: None,
            default_dock: None,
            default_size: None,
            root_view: "sample-root".into(),
            toggle_command: None,
        },
    );

    let panels = registry.register_extension("remote-ui".into(), remote_ui);
    assert_eq!(panels.len(), 1);
    assert!(registry.commands.iter().any(|c| c.qualified_id == "remote-ui::sample-open"));
    assert!(registry.panels.iter().any(|p| p.qualified_panel_id == "remote-ui::sample-panel"));

    let removed = registry.unregister_extension("remote-ui");
    assert_eq!(removed, vec!["remote-ui::sample-panel".to_string()]);
    assert!(registry.commands.is_empty());
    assert!(registry.panels.is_empty());
    assert!(registry.command_palette_items.is_empty());
}

#[test]
fn command_palette_items_include_palette_commands_and_palette_menus() {
    let mut registry = RemoteUiRegistry::new();
    let mut remote_ui = RemoteUiManifest::new();
    remote_ui.insert_command("sample-open".into(), command("Open Sample", "Open the sample panel", true));
    remote_ui.insert_command("sample-hidden".into(), command("Hidden Sample", "Shown only through menu wiring", false));
    remote_ui.menus.push(menu("sample-hidden-menu", MenuLocation::CommandPalette, "Open Hidden Sample", "sample-hidden", None, 10));

    registry.register_extension("remote-ui".into(), remote_ui);

    let titles = registry.command_palette_items.iter().map(|item| item.title.to_string()).collect::<Vec<_>>();
    assert_eq!(titles, vec!["Open Hidden Sample", "Open Sample"]);
}

#[test]
fn command_palette_search_matches_command_metadata() {
    let search_text = palette_search_text("remote-ui", "sample-open", "Open Sample", Some("Open the sample panel"));
    let items = vec![RegisteredRemoteUiPaletteItem {
        command_id: "remote-ui::sample-open".into(),
        title: "Open Sample".into(),
        search_text: search_text.clone(),
    }];
    let results = remote_ui_command_palette_results(&items, &vec![search_text], "sample panel");

    assert_eq!(results.len(), 1);
    assert_eq!(results[0].string, "Open Sample");
}

#[test]
fn palette_results_highlight_the_first_match_in_bytes_and_sort_by_title() {
    let items = vec![
        RegisteredRemoteUiPaletteItem { command_id: "e::z".into(), title: "Zoom Panel".into(), search_text: "Zoom Panel".into() },
        RegisteredRemoteUiPaletteItem { command_id: "e::a".into(), title: "Äpfel Panel".into(), search_text: "Äpfel Panel".into() },
        RegisteredRemoteUiPaletteItem { command_id: "e::n".into(), title: "Nothing".into(), search_text: "Nothing".into() },
    ];
    let searches = items.iter().map(|i| i.search_text.clone()).collect::<Vec<_>>();
    let results = remote_ui_command_palette_results(&items, &searches, "PANEL");
    assert_eq!(results.iter().map(|r| r.string.as_str()).collect::<Vec<_>>(), vec!["Zoom Panel", "Äpfel Panel"]);
    assert_eq!(results[0].positions, vec![5, 6, 7, 8, 9]);
    assert_eq!(results[1].positions, vec![7, 8, 9, 10, 11]);

    let all = remote_ui_command_palette_results(&items, &searches, "");
    assert_eq!(all.len(), 3);
    assert!(all.iter().all(|r| r.positions.is_empty()));

    assert_eq!(substring_match_positions("Open Sample", ""), Vec::<usize>::new());
    assert_eq!(substring_match_positions("Open Sample", "xyz"), Vec::<usize>::new());
    assert_eq!(substring_match_positions("Open Sample", "SAM"), vec![5, 6, 7]);
}

#[test]
fn widget_descriptors_filter_by_surface_and_side_and_sort_by_priority() {
    let mut registry = RemoteUiRegistry::new();
    let mut remote_ui = RemoteUiManifest::new();
    let titlebar = |id: &str, side: WidgetSide, size: WidgetSize, priority: u32, min: Option<u32>, max: Option<u32>, refresh: Option<u32>| TitlebarWidgetManifestEntry {
        id: id.into(),
        root_view: format!("titlebar-{id}"),
        side,
        size,
        priority,
        min_width: min,
        max_width: max,
        refresh_interval_seconds: refresh,
    };
    remote_ui.titlebar_widgets.push(titlebar("right-late", WidgetSide::Right, WidgetSize::Large, 30, None, None, None));
    remote_ui.titlebar_widgets.push(titlebar("right-early", WidgetSide::Right, WidgetSize::Medium, 10, Some(120), Some(240), Some(300)));
    remote_ui.titlebar_widgets.push(titlebar("left-only", WidgetSide::Left, WidgetSize::Small, 20, None, None, None));
    remote_ui.footer_widgets.push(FooterWidgetManifestEntry {
        id: "footer-right".into(),
        root_view: "footer-right".into(),
        zone: FooterWidgetZone::Right,
        size: WidgetSize::Small,
        priority: 15,
        min_width: Some(80),
        max_width: Some(160),
        refresh_interval_seconds: None,
    });

    registry.register_extension("remote-ui".into(), remote_ui);

    let titlebar_right = registry.widget_descriptors(WidgetSurface::Titlebar, StripSide::Right);
    let titlebar_left = registry.widget_descriptors(WidgetSurface::Titlebar, StripSide::Left);
    let footer_right = registry.widget_descriptors(WidgetSurface::Footer, StripSide::Right);

    assert_eq!(
        titlebar_right.iter().map(|d| d.qualified_widget_id.as_str()).collect::<Vec<_>>(),
        vec!["remote-ui::right-early", "remote-ui::right-late"]
    );
    assert_eq!(titlebar_right[0].min_width, Some(120));
    assert_eq!(titlebar_right[0].max_width, Some(240));
    assert_eq!(titlebar_right[0].refresh_interval_seconds, Some(300));
    assert_eq!(titlebar_left.iter().map(|d| d.qualified_widget_id.as_str()).collect::<Vec<_>>(), vec!["remote-ui::left-only"]);
    assert_eq!(footer_right.iter().map(|d| d.qualified_widget_id.as_str()).collect::<Vec<_>>(), vec!["remote-ui::footer-right"]);
    assert_eq!(footer_right[0].surface, WidgetSurface::Footer);
    assert_eq!(footer_right[0].side, StripSide::Right);
    assert!(registry.widget_descriptors(WidgetSurface::Footer, StripSide::Center).is_empty());
}

#[test]
fn titlebar_widget_validation_enforces_size_budget() {
    let widget = widget("remote-ui::titlebar", WidgetSurface::Titlebar, StripSide::Right, WidgetSize::Medium);
    let tree = RemoteViewTree {
        revision: 1,
        root_id: "root".into(),
        nodes: vec![
            node("root", None, RemoteViewNodeKind::Row),
            node("icon", Some("root"), RemoteViewNodeKind::Icon("icons/sample.svg".into())),
            node("badge", Some("root"), RemoteViewNodeKind::Badge("42%".into())),
            node("text", Some("root"), RemoteViewNodeKind::Text("extra".into())),
        ],
    };
    let error = validate_widget_tree(&widget, &tree).unwrap_err().message();
    assert!(error.contains("exceeds the `m` content budget"));
}

#[test]
fn footer_edge_widget_validation_requires_single_icon() {
    let widget = widget("remote-ui::footer-edge", WidgetSurface::Footer, StripSide::Left, WidgetSize::Small);
    let tree = RemoteViewTree {
        revision: 1,
        root_id: "root".into(),
        nodes: vec![
            node("root", None, RemoteViewNodeKind::Row),
            node("icon", Some("root"), RemoteViewNodeKind::Icon("icons/sample.svg".into())),
            node("badge", Some("root"), RemoteViewNodeKind::Badge("42%".into())),
        ],
    };
    let error = validate_widget_tree(&widget, &tree).unwrap_err().message();
    assert!(error.contains("unsupported element"));
}

#[test]
fn footer_center_widget_validation_allows_large_status_cluster() {
    let widget = widget("remote-ui::footer-center", WidgetSurface::Footer, StripSide::Center, WidgetSize::Large);
    let tree = RemoteViewTree {
        revision: 1,
        root_id: "root".into(),
        nodes: vec![
            node("root", None, RemoteViewNodeKind::Row),
            node("icon", Some("root"), RemoteViewNodeKind::Icon("icons/sample.svg".into())),
            node("status", Some("root"), RemoteViewNodeKind::Button("Status".into())),
            node("badge", Some("root"), RemoteViewNodeKind::Badge("7d 20".into())),
            node("progress", Some("root"), RemoteViewNodeKind::ProgressBar(ProgressBarProps { value: 20, max_value: 100 })),
        ],
    };
    assert!(validate_widget_tree(&widget, &tree).is_ok());
}

#[test]
fn widget_width_is_capped_by_the_slot() {
    let mut w = widget("remote-ui::w", WidgetSurface::Titlebar, StripSide::Right, WidgetSize::Small);
    w.min_width = Some(10);
    let (min, max) = widget_width_bounds(&w);
    assert_eq!(min, Some(10));
    assert!(max.is_some());
    w.max_width = Some(1);
    assert_eq!(widget_width_bounds(&w).1, Some(1));
}

#[test]
fn context_menu_entries_include_item_tab_menus_and_actions() {
    let mut registry = RemoteUiRegistry::new();
    let mut remote_ui = RemoteUiManifest::new();
    remote_ui.insert_command("pin-tab".into(), command("Pin Tab", "Pin the current tab", false));
    remote_ui.insert_command("copy-path".into(), command("Copy Path", "Copy the active tab path", false));
    remote_ui.menus.push(menu("pin-tab-menu", MenuLocation::ItemTabContext, "Pin From Extension", "pin-tab", None, 20));
    remote_ui.context_actions.push(action("copy-path-action", ContextActionTarget::ItemTab, "Copy Path From Extension", "copy-path", 10));

    registry.register_extension("remote-ui".into(), remote_ui);
    let entries = registry.context_menu_entries(MenuLocation::ItemTabContext, ContextActionTarget::ItemTab, None);

    assert_eq!(titles(&entries), vec!["Copy Path From Extension", "Pin From Extension"]);
    assert_eq!(command_ids(&entries), vec!["remote-ui::copy-path", "remote-ui::pin-tab"]);
}

#[test]
fn context_menu_entries_include_editor_menus_and_actions() {
    let mut registry = RemoteUiRegistry::new();
    let mut remote_ui = RemoteUiManifest::new();
    remote_ui.insert_command("explain-selection".into(), command("Explain Selection", "Explain the selected code", false));
    remote_ui.insert_command("copy-symbol".into(), command("Copy Symbol", "Copy the selected symbol", false));
    remote_ui.menus.push(menu("editor-explain-menu", MenuLocation::EditorContext, "Explain From Extension", "explain-selection", None, 20));
    remote_ui.context_actions.push(action("editor-copy-action", ContextActionTarget::Editor, "Copy Symbol From Extension", "copy-symbol", 10));

    registry.register_extension("remote-ui".into(), remote_ui);
    let entries = registry.context_menu_entries(MenuLocation::EditorContext, ContextActionTarget::Editor, None);

    assert_eq!(titles(&entries), vec!["Copy Symbol From Extension", "Explain From Extension"]);
    assert_eq!(command_ids(&entries), vec!["remote-ui::copy-symbol", "remote-ui::explain-selection"]);
}

#[test]
fn context_menu_entries_include_project_panel_menus_and_actions() {
    let mut registry = RemoteUiRegistry::new();
    let mut remote_ui = RemoteUiManifest::new();
    remote_ui.insert_command("reveal-children".into(), command("Reveal Children", "Reveal descendant entries", false));
    remote_ui.insert_command("copy-entry-path".into(), command("Copy Entry Path", "Copy the selected project entry path", false));
    remote_ui.menus.push(menu("project-panel-reveal-menu", MenuLocation::ProjectPanelContext, "Reveal Children From Extension", "reveal-children", None, 20));
    remote_ui.context_actions.push(action("project-panel-copy-action", ContextActionTarget::ProjectPanel, "Copy Entry Path From Extension", "copy-entry-path", 10));

    registry.register_extension("remote-ui".into(), remote_ui);
    let entries = registry.context_menu_entries(MenuLocation::ProjectPanelContext, ContextActionTarget::ProjectPanel, None);

    assert_eq!(titles(&entries), vec!["Copy Entry Path From Extension", "Reveal Children From Extension"]);
    assert_eq!(command_ids(&entries), vec!["remote-ui::copy-entry-path", "remote-ui::reveal-children"]);
}

#[test]
fn context_menu_entries_filter_panel_overflow_entries_by_target_panel() {
    let mut registry = RemoteUiRegistry::new();
    let mut remote_ui = RemoteUiManifest::new();
    remote_ui.insert_command("open-panel-settings".into(), command("Panel Settings", "Open settings for this panel", false));
    remote_ui.insert_command("open-other-panel-settings".into(), command("Other Panel Settings", "Open settings for another panel", false));
    remote_ui.menus.push(menu("current-panel-menu", MenuLocation::PanelOverflow, "Current Panel Entry", "open-panel-settings", Some("sample-panel"), 10));
    remote_ui.menus.push(menu("other-panel-menu", MenuLocation::PanelOverflow, "Other Panel Entry", "open-other-panel-settings", Some("other-panel"), 20));

    registry.register_extension("remote-ui".into(), remote_ui);
    let entries = registry.context_menu_entries(MenuLocation::PanelOverflow, ContextActionTarget::Panel, Some("remote-ui::sample-panel"));

    assert_eq!(titles(&entries), vec!["Current Panel Entry"]);
}

#[test]
fn equal_priorities_order_by_title_and_reregistering_replaces() {
    let mut registry = RemoteUiRegistry::new();
    let mut first = RemoteUiManifest::new();
    first.menus.push(menu("b", MenuLocation::EditorContext, "Beta", "x", None, 5));
    first.menus.push(menu("a", MenuLocation::EditorContext, "Alpha", "y", None, 5));
    registry.register_extension("ext".into(), first);
    let entries = registry.context_menu_entries(MenuLocation::EditorContext, ContextActionTarget::Editor, None);
    assert_eq!(titles(&entries), vec!["Alpha", "Beta"]);

    let second = RemoteUiManifest::new();
    registry.register_extension("ext".into(), second);
    assert_eq!(registry.extensions.len(), 1);
    assert!(registry.context_menu_entries(MenuLocation::EditorContext, ContextActionTarget::Editor, None).is_empty());
}

#[test]
fn panels_take_successive_activation_priorities() {
    let mut registry = RemoteUiRegistry::new();
    let panel = |title: &str| ExtensionPanelManifestEntry {
        title: title.into(),
        icon: None,
        default_dock: None,
        default_size: None,
        root_view: "root".into(),
        toggle_command: None,
    };
    let mut m = RemoteUiManifest::new();
    m.insert_panel("one".into(), panel("One"));
    m.insert_panel("two".into(), panel("Two"));
    let registered = registry.register_extension("ext".into(), m);
    assert_eq!(registered.iter().map(|p| p.activation_priority).collect::<Vec<_>>(), vec![0, 1]);
    assert_eq!(registry.next_panel_activation_priority, 2);
}

#[test]
fn dispatch_finds_registered_commands_and_names_unknown_ones() {
    let mut registry = RemoteUiRegistry::new();
    let mut remote_ui = RemoteUiManifest::new();
    remote_ui.insert_command("sample-open".into(), command("Open Sample", "Open the sample panel", true));
    registry.register_extension("remote-ui".into(), remote_ui);
    let found = registry.command_for_dispatch("remote-ui::sample-open").unwrap();
    assert_eq!(found.local_command_id, "sample-open");
    assert_eq!(found.extension_id, "remote-ui");
    assert_eq!(found.title, "Open Sample");
    assert_eq!(
        registry.command_for_dispatch("remote-ui::missing").unwrap_err(),
        "unknown extension command `remote-ui::missing`"
    );
}

#[test]
fn palette_results_keep_the_given_order_among_equal_titles() {
    let items = vec![
        RegisteredRemoteUiPaletteItem { command_id: "b::open".into(), title: "Open".into(), search_text: "Open b".into() },
        RegisteredRemoteUiPaletteItem { command_id: "a::open".into(), title: "Open".into(), search_text: "Open a".into() },
        RegisteredRemoteUiPaletteItem { command_id: "c::close".into(), title: "Close".into(), search_text: "Close".into() },
    ];
    let searches = items.iter().map(|i| i.search_text.clone()).collect::<Vec<_>>();
    let results = remote_ui_command_palette_results(&items, &searches, "");
    assert_eq!(
        results.iter().map(|r| r.command_id.as_str()).collect::<Vec<_>>(),
        vec!["c::close", "b::open", "a::open"]
    );
}

#[test]
fn clickable_and_tooltip_read_node_properties() {
    let mut n = node("button", None, RemoteViewNodeKind::Button("Open".into()));
    assert!(!node_is_clickable(&n));
    assert_eq!(node_tooltip(&n), None);
    n.properties.push(RemoteViewProperty { name: "clickable".into(), value: "false".into() });
    n.properties.push(RemoteViewProperty { name: "tooltip".into(), value: "Open the panel".into() });
    n.properties.push(RemoteViewProperty { name: "tooltip".into(), value: "later".into() });
    assert!(!node_is_clickable(&n));
    assert_eq!(node_tooltip(&n).as_deref(), Some("Open the panel"));
    n.properties.push(RemoteViewProperty { name: "clickable".into(), value: "true".into() });
    assert!(node_is_clickable(&n));
}
