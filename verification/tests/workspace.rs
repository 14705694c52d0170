use beditor::{PanelConfig, Plugin, PluginRegistry, ResourceId, Workspace, WorkspaceRegistry};

fn ws(name: &str) -> Workspace {
    Workspace { name: name.to_string(), panels: vec![] }
}

fn panel(name: &str, workspaces: Vec<ResourceId>) -> PanelConfig {
    PanelConfig { name: name.to_string(), tools: vec![], workspaces }
}

fn plugin(name: &str, enabled: bool, workspaces: Vec<Workspace>, panels: Vec<PanelConfig>) -> Plugin {
    Plugin {
        name: name.to_string(),
        description: String::new(),
        panels,
        workspaces,
        is_enabled: enabled,
        is_initialized: false,
        tools: vec![],
        menu_groups: vec![],
        i18n: None,
    }
}

fn names(w: &Workspace) -> Vec<String> {
    w.panels.iter().map(|p| p.to_string()).collect()
}

fn sample() -> PluginRegistry {
    let welcome = ResourceId::workspace("Core", "welcome");
    let editor = ResourceId::workspace("Core", "scene_editor");
    let missing = ResourceId::workspace("Nobody", "nothing");
    PluginRegistry {
        plugins: vec![
            plugin(
                "Core",
                true,
                vec![ws("welcome"), ws("scene_editor")],
                vec![
                    panel("status_bar", vec![welcome.clone(), editor.clone(), missing.clone()]),
                    panel("welcome", vec![welcome.clone(), welcome.clone()]),
                ],
            ),
            plugin("Viewport", true, vec![], vec![panel("Viewport", vec![editor.clone()])]),
            plugin("Off", false, vec![ws("hidden")], vec![panel("p", vec![welcome.clone()])]),
        ],
    }
}

#[test]
fn from_plugins_registers_enabled_workspaces_only() {
    let reg = WorkspaceRegistry::from_plugins(&sample());
    assert!(reg.get(ResourceId::workspace("Core", "welcome")).is_some());
    assert!(reg.get(ResourceId::workspace("Core", "scene_editor")).is_some());
    assert!(reg.get(ResourceId::workspace("Off", "hidden")).is_none());
    assert!(reg.get(ResourceId::workspace("Nobody", "nothing")).is_none());
    assert!(reg.get_current().is_none());
}

#[test]
fn from_plugins_adds_panels_once_in_order() {
    let reg = WorkspaceRegistry::from_plugins(&sample());
    let welcome = reg.get(ResourceId::workspace("Core", "welcome")).unwrap();
    assert_eq!(welcome.name, "welcome");
    assert_eq!(names(welcome), vec!["Core::panel::status_bar", "Core::panel::welcome"]);
    let editor = reg.get(ResourceId::workspace("Core", "scene_editor")).unwrap();
    assert_eq!(names(editor), vec!["Core::panel::status_bar", "Viewport::panel::Viewport"]);
}

#[test]
fn later_declaration_replaces_earlier_one() {
    let mut second = ws("main");
    second.panels.push(ResourceId::panel("X", "declared"));
    let reg = WorkspaceRegistry::from_plugins(&PluginRegistry {
        plugins: vec![plugin("X", true, vec![ws("main"), second], vec![])],
    });
    let main = reg.get(ResourceId::workspace("X", "main")).unwrap();
    assert_eq!(names(main), vec!["X::panel::declared"]);
}

#[test]
fn declared_panel_is_not_added_twice() {
    let mut main = ws("main");
    main.panels.push(ResourceId::panel("X", "p"));
    let reg = WorkspaceRegistry::from_plugins(&PluginRegistry {
        plugins: vec![plugin(
            "X",
            true,
            vec![main],
            vec![panel("p", vec![ResourceId::workspace("X", "main")])],
        )],
    });
    let main = reg.get(ResourceId::workspace("X", "main")).unwrap();
    assert_eq!(names(main), vec!["X::panel::p"]);
}

#[test]
fn set_current_selects_registered_workspace() {
    let mut reg = WorkspaceRegistry::from_plugins(&sample());
    reg.set_current(ResourceId::workspace("Core", "scene_editor"));
    assert_eq!(reg.get_current().unwrap().name, "scene_editor");
}

#[test]
fn set_current_ignores_unknown_workspace() {
    let mut reg = WorkspaceRegistry::from_plugins(&sample());
    reg.set_current(ResourceId::workspace("Core", "welcome"));
    reg.set_current(ResourceId::workspace("Core", "nowhere"));
    assert_eq!(reg.get_current().unwrap().name, "welcome");
}

#[test]
fn default_registry_is_empty() {
    let mut reg = WorkspaceRegistry::default();
    assert!(reg.get(ResourceId::workspace("Core", "welcome")).is_none());
    reg.set_current(ResourceId::workspace("Core", "welcome"));
    assert!(reg.get_current().is_none());
    let w = Workspace::default();
    assert_eq!(w.name, "");
    assert!(w.panels.is_empty());
}

#[test]
fn clone_keeps_workspaces_and_current() {
    let mut reg = WorkspaceRegistry::from_plugins(&sample());
    reg.set_current(ResourceId::workspace("Core", "welcome"));
    let copy = reg.clone();
    assert_eq!(copy.get_current().unwrap().name, "welcome");
    let editor = copy.get(ResourceId::workspace("Core", "scene_editor")).unwrap();
    assert_eq!(names(editor), vec!["Core::panel::status_bar", "Viewport::panel::Viewport"]);
}

#[test]
fn core_and_dumy_plugins_assemble_the_core_workspaces() {
    let reg = WorkspaceRegistry::from_plugins(&PluginRegistry {
        plugins: vec![beditor::plugins::core_plugin(), beditor::plugins::dumy_plugin()],
    });
    let welcome = reg.get(ResourceId::workspace("Core", "welcome")).unwrap();
    assert_eq!(names(welcome), vec!["Core::panel::status_bar", "Core::panel::welcome"]);
    let editor = reg.get(ResourceId::workspace("Core", "scene_editor")).unwrap();
    assert_eq!(names(editor), vec!["Core::panel::status_bar"]);
    let playtest = reg.get(ResourceId::workspace("Core", "playtest")).unwrap();
    assert_eq!(playtest.name, "playtest");
    assert_eq!(names(playtest), vec!["Core::panel::status_bar"]);
    assert!(reg.get(ResourceId::workspace("Dumy", "main")).is_none());
}

#[test]
fn editor_plugins_fill_the_scene_editor_workspace() {
    let reg = WorkspaceRegistry::from_plugins(&PluginRegistry {
        plugins: vec![
            beditor::plugins::core_plugin(),
            beditor::plugins::top_bar_plugin(),
            beditor::plugins::scene_editor_plugin(),
        ],
    });
    let editor = reg.get(ResourceId::workspace("Core", "scene_editor")).unwrap();
    assert_eq!(
        names(editor),
        vec![
            "Core::panel::status_bar",
            "Top bar::panel::top_bar",
            "SceneEditor::panel::Entity Browser",
            "SceneEditor::panel::Inspector",
        ]
    );
    let welcome = reg.get(ResourceId::workspace("Core", "welcome")).unwrap();
    assert_eq!(names(welcome), vec!["Core::panel::status_bar", "Core::panel::welcome", "Top bar::panel::top_bar"]);
}

#[test]
fn asset_browser_and_viewport_plugins() {
    let reg = WorkspaceRegistry::from_plugins(&PluginRegistry {
        plugins: vec![
            beditor::plugins::core_plugin(),
            beditor::plugins::asset_browser_plugin(),
            beditor::plugins::viewport_plugin(),
        ],
    });
    let assets = reg.get(ResourceId::workspace("Asset Browser", "asset browser")).unwrap();
    assert_eq!(
        names(assets),
        vec!["Core::panel::top_bar", "Core::panel::status_bar", "Asset Browser::panel::asset browser"]
    );
    let editor = reg.get(ResourceId::workspace("Core", "scene_editor")).unwrap();
    assert_eq!(names(editor), vec!["Core::panel::status_bar", "Viewport::panel::Viewport"]);
    let viewport = beditor::plugins::viewport_plugin();
    assert_eq!(viewport.tools[0].name, "Frame counter");
}
