use vstd::prelude::*;

use crate::i18n::Catalog;
use crate::menu::MenuBarGroupConfig;
use crate::resource_id::ResourceId;
use crate::workspace::Workspace;

verus! {

/// Where a panel docks in the editor window.
#[derive(Clone, Copy, Debug, PartialEq, Eq, Structural)]
pub enum PanelAligment {
    Top,
    Bottom,
    Left,
    Center,
    Start,
}

/// Where a tool sits inside its panel.
#[derive(Clone, Copy, Debug, PartialEq, Eq, Structural)]
pub enum ToolAlignment {
    Start,
    End,
}

/// Where a tool is placed.
#[derive(Debug, PartialEq)]
pub enum ToolPlacement {
    /// Place in specific panel by name
    PanelByName(String),
    /// Place in any panel with this alignment
    PanelByAlignment(PanelAligment),
    /// Create dedicated panel for this tool
    OwnPanel(PanelConfig),
    /// Place in the panel with this identifier
    ByResourceId(ResourceId),
}

/// A tool contributed by a plugin (its component is rendered by the UI layer).
#[derive(Debug, PartialEq)]
pub struct Tool {
    pub placement: ToolPlacement,
    pub name: String,
    pub alignment: ToolAlignment,
    pub workspaces: Vec<ResourceId>,
}

/// A panel contributed by a plugin, with the workspaces it asks to be shown in.
#[derive(Debug, PartialEq)]
pub struct PanelConfig {
    pub name: String,
    pub tools: Vec<Tool>,
    pub workspaces: Vec<ResourceId>,
}

/// A plugin as the registry holds it: what it contributes and whether it is enabled.
pub struct Plugin {
    pub name: String,
    pub description: String,
    pub panels: Vec<PanelConfig>,
    pub workspaces: Vec<Workspace>,
    pub is_enabled: bool,
    pub is_initialized: bool,
    /// Tools the plugin places in panels of other plugins.
    pub tools: Vec<Tool>,
    /// Menus the plugin adds to the menu bar, each item given by its label key.
    pub menu_groups: Vec<MenuBarGroupConfig<String>>,
    /// Translations the plugin brings, by language tag and key.
    pub i18n: Option<Catalog>,
}

/// The plugins known to the editor, in registration order.
pub struct PluginRegistry {
    pub plugins: Vec<Plugin>,
}

} // verus!
