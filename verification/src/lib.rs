//! Verified core of the Neo Zed plugin and workflow surfaces: the workflow
//! model and canvas editing rules, the remote UI extension registry, the plugin
//! store decisions, and the Codex usage snapshot and auth-state logic.

pub mod canvas;
pub mod canvas_gestures;
pub mod codex_usage;
pub mod hooks;
pub mod inspector;
pub mod json;
pub mod layering;
pub mod oauth;
pub mod order;
pub mod plugins;
pub mod remote_ui;
pub mod remote_ui_host;
pub mod remote_ui_registry;
pub mod runs;
pub mod text;
pub mod usage_extension;
pub mod workflow;
