use vstd::prelude::*;
use vstd::string::*;

use crate::plugin::{PanelAligment, PanelConfig, Tool, ToolAlignment, ToolPlacement};
use crate::resource_id::ResourceId;

verus! {

/// The workspace for editing a scene.
pub struct SceneEditorWorkspace {
    panels: Vec<ResourceId>,
}

/// The panel that shows the scene tree.
pub struct SceneTreePanel;

impl SceneTreePanel {
    /// The tools this panel holds.
    pub fn tools(&self) -> (r: Vec<Tool>)
        ensures
            r@.len() == 1,
            is_scene_tree(r@[0]),
    {
        vec![scene_tree()]
    }
}

/// `t` is the scene tree tool: named "Scene Tree", placed at the start of a
/// panel, and not tied to particular workspaces.
pub open spec fn is_scene_tree(t: Tool) -> bool {
    &&& t.name@ == "Scene Tree"@
    &&& t.placement matches ToolPlacement::PanelByAlignment(PanelAligment::Start)
    &&& t.alignment == ToolAlignment::Start
    &&& t.workspaces@.len() == 0
}

/// The scene tree tool.
pub fn scene_tree() -> (r: Tool)
    ensures
        is_scene_tree(r),
{
    Tool {
        placement: ToolPlacement::PanelByAlignment(PanelAligment::Start),
        name: String::from_str("Scene Tree"),
        alignment: ToolAlignment::Start,
        workspaces: Vec::new(),
    }
}

/// The component inspector panel, holding the scene tree tool.
#[allow(non_snake_case)]
pub fn ComponentInspectorPanel() -> (r: PanelConfig)
    ensures
        r.name@ == "Component Inspector"@,
        r.tools@.len() == 1,
        is_scene_tree(r.tools@[0]),
        r.workspaces@.len() == 0,
{
    PanelConfig {
        name: String::from_str("Component Inspector"),
        tools: vec![scene_tree()],
        workspaces: Vec::new(),
    }
}

} // verus!
