use neozed::plugins::{
    infer_plugin_source, installed_plugin_status, merge_plugin_records, plugins_to_install, sync_needs_remote,
    InstalledPlugin, PluginFlag, PluginListing, PluginSettings, PluginSource, PluginState, PluginStatus,
    RemotePlugin,
};

const INSTALLED_ROOT: &str = "/home/user/.local/share/zed/plugins/installed";

fn test_plugin(root: &str, state: PluginState) -> InstalledPlugin {
    InstalledPlugin {
        id: "codex-usage-plugin".to_string(),
        version: "0.1.0".to_string(),
        state,
        root: root.to_string(),
        from_registry: false,
        error_message: None,
    }
}

fn local(id: &str, version: &str, state: PluginState, from_registry: bool) -> InstalledPlugin {
    InstalledPlugin {
        id: id.to_string(),
        version: version.to_string(),
        state,
        root: format!("{INSTALLED_ROOT}/{id}"),
        from_registry,
        error_message: None,
    }
}

fn remote(id: &str, version: &str) -> RemotePlugin {
    RemotePlugin { id: id.to_string(), version: version.to_string() }
}

fn flag(id: &str, enabled: bool) -> PluginFlag {
    PluginFlag { plugin_id: id.to_string(), enabled }
}

#[test]
fn plugin_settings_default_to_empty_install_and_enabled_updates() {
    let settings = PluginSettings::empty();
    assert!(settings.auto_install_plugins.is_empty());
    assert!(settings.auto_update_plugins.is_empty());
    assert!(!settings.should_auto_install("typescript"));
    assert!(settings.should_auto_update("typescript"));
}

#[test]
fn plugin_settings_follow_user_settings() {
    let settings = PluginSettings {
        auto_install_plugins: vec![flag("typescript", true)],
        auto_update_plugins: vec![flag("typescript", false)],
    };
    assert!(settings.should_auto_install("typescript"));
    assert!(!settings.should_auto_update("typescript"));
    assert!(!settings.should_auto_install("python"));
    assert!(settings.should_auto_update("python"));
}

#[test]
fn broken_development_plugin_stays_in_development_source() {
    let plugin = test_plugin("/Users/nest/Developer/neo-zed/plugins/codex-usage-plugin", PluginState::Error);
    assert!(matches!(infer_plugin_source(INSTALLED_ROOT, &plugin), PluginSource::Development { .. }));
}

#[test]
fn broken_installed_plugin_stays_in_registry_source() {
    let root = format!("{INSTALLED_ROOT}/codex-usage-plugin");
    let plugin = test_plugin(&root, PluginState::Error);
    assert!(matches!(infer_plugin_source(INSTALLED_ROOT, &plugin), PluginSource::Registry));
}

#[test]
fn path_prefix_compares_whole_components() {
    let root = format!("{INSTALLED_ROOT}-old/codex-usage-plugin");
    let plugin = test_plugin(&root, PluginState::Error);
    assert!(matches!(infer_plugin_source(INSTALLED_ROOT, &plugin), PluginSource::Development { path } if path == root));
}

#[test]
fn broken_plugin_without_message_reports_a_plugin_error() {
    let plugin = test_plugin("/x", PluginState::Error);
    assert_eq!(installed_plugin_status(&plugin), PluginStatus::Failed("Plugin error".to_string()));
    let mut with_message = test_plugin("/x", PluginState::Installed);
    with_message.error_message = Some("bad manifest".to_string());
    assert_eq!(installed_plugin_status(&with_message), PluginStatus::Failed("bad manifest".to_string()));
    assert_eq!(installed_plugin_status(&test_plugin("/x", PluginState::Installed)), PluginStatus::Installed);
}

#[test]
fn merged_list_follows_the_registry_then_local_only_plugins() {
    let locals = vec![
        local("alpha", "1.0.0", PluginState::Installed, true),
        local("dev", "0.0.1", PluginState::Development, false),
        local("beta", "2.0.0", PluginState::Installed, true),
    ];
    let remotes = vec![remote("beta", "2.1.0"), remote("alpha", "1.0.0"), remote("gamma", "3.0.0")];
    let merged = merge_plugin_records(&locals, Ok(remotes)).unwrap();
    assert_eq!(
        merged,
        vec![
            PluginListing::UpdateAvailable { local_index: 2, latest_version: "2.1.0".to_string() },
            PluginListing::Remote { remote_index: 1, installed: true },
            PluginListing::Remote { remote_index: 2, installed: false },
            PluginListing::Local { local_index: 1 },
        ]
    );
}

#[test]
fn registry_error_stands_only_without_local_plugins() {
    let err = merge_plugin_records(&vec![], Err("offline".to_string()));
    assert_eq!(err, Err("offline".to_string()));
    let locals = vec![local("dev", "0.0.1", PluginState::Development, false)];
    let merged = merge_plugin_records(&locals, Err("offline".to_string())).unwrap();
    assert_eq!(merged, vec![PluginListing::Local { local_index: 0 }]);
}

#[test]
fn sync_installs_wanted_plugins_and_updates_registry_installs() {
    let locals = vec![
        local("old", "1.0.0", PluginState::Installed, true),
        local("same", "1.0.0", PluginState::Installed, true),
        local("dev", "0.1.0", PluginState::Development, false),
        local("pinned", "1.0.0", PluginState::Installed, true),
    ];
    let settings = PluginSettings {
        auto_install_plugins: vec![flag("wanted", true), flag("dev", true), flag("unwanted", false), flag("missing", true)],
        auto_update_plugins: vec![flag("pinned", false)],
    };
    let remotes = vec![
        remote("wanted", "1.0.0"),
        remote("old", "2.0.0"),
        remote("same", "1.0.0"),
        remote("dev", "9.9.9"),
        remote("pinned", "2.0.0"),
        remote("unwanted", "1.0.0"),
    ];
    assert!(sync_needs_remote(&locals, &settings));
    assert_eq!(plugins_to_install(&locals, &settings, &remotes), vec!["old".to_string(), "wanted".to_string()]);
}

#[test]
fn sync_needs_no_registry_when_nothing_is_wanted() {
    let locals = vec![local("dev", "0.1.0", PluginState::Development, false)];
    let settings = PluginSettings { auto_install_plugins: vec![flag("dev", true)], auto_update_plugins: vec![] };
    assert!(!sync_needs_remote(&locals, &settings));
    assert!(plugins_to_install(&locals, &settings, &vec![remote("dev", "1.0.0")]).is_empty());
}
