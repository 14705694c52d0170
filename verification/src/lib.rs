//! Verified core of a plugin-based game editor: resource identifiers,
//! workspace assembly from plugins, viewport frame state and editor configuration.

pub mod asset_browser;
pub mod config;
pub mod entity_tree;
pub mod game_process;
pub mod i18n;
pub mod layout;
pub mod menu;
pub mod plugin;
pub mod plugins;
pub mod resource_id;
pub mod scene_editor;
pub mod str_map;
pub mod viewport_frame;
pub mod viewport_manager;
pub mod viewport_protocol;
pub mod workspace;
pub mod workspace_laws;

pub use config::{Config, Editor, EditorConfig, WindowConfig, WindowsManagerConfig};
pub use plugin::{PanelAligment, PanelConfig, Plugin, PluginRegistry, Tool, ToolAlignment, ToolPlacement};
pub use resource_id::{ResourceId, ResourceType};
pub use viewport_protocol::ViewportProtocolState;
pub use workspace::{Workspace, WorkspaceRegistry};
