use beditor::config::APP_NAME;
use beditor::plugins::{
    CorePluginPanel, DumyPluginPanel, GameProcessPlugin, ViewportCustomProtocolPlugin,
    ViewportSharedMemoryPlugin, ViewportWindowOverlayPlugin,
};
use beditor::scene_editor::{scene_tree, ComponentInspectorPanel, SceneTreePanel};
use beditor::{
    Config, Editor, EditorConfig, PanelAligment, ToolAlignment, ToolPlacement, ViewportProtocolState,
    WindowConfig, WindowsManagerConfig,
};

#[test]
fn new_state_has_no_frame() {
    let s = ViewportProtocolState::new();
    assert_eq!(s.frame_counter(), 0);
    assert_eq!(s.get_frame(), None);
    let d = ViewportProtocolState::default();
    assert_eq!(d.frame_counter(), 0);
    assert!(d.latest_frame.is_none());
}

#[test]
fn frame_read_after_update_is_the_stored_frame() {
    let mut s = ViewportProtocolState::new();
    s.update_frame(vec![1, 2, 3]);
    assert_eq!(s.get_frame(), Some(vec![1, 2, 3]));
    assert_eq!(s.frame_counter(), 1);
    s.update_frame(vec![9]);
    assert_eq!(s.get_frame(), Some(vec![9]));
    assert_eq!(s.frame_counter(), 2);
    // Reading does not consume the frame.
    assert_eq!(s.get_frame(), Some(vec![9]));
}

#[test]
fn editor_config_defaults() {
    let c = EditorConfig::default();
    assert_eq!(c.top_bar.title, "Beditor v0.1.0");
    assert_eq!((c.top_bar.width, c.top_bar.height), (800, 600));
    assert_eq!(c.left_panel.title, "Beditor - Hierarchy");
    assert_eq!((c.left_panel.width, c.left_panel.height), (400, 300));
    assert_eq!(c.right_panel.title, "Beditor - Inspector");
    assert_eq!(c.screen_size_fallback, (1920, 1080));
    assert_eq!(c.window_border_size, 2);
    assert_eq!(c.window_title_height, 35);
    assert!(!c.top_bar.decorations && !c.top_bar.resizable);
    assert_eq!(APP_NAME, "Beditor");
    let w = WindowConfig::default();
    assert_eq!((w.width, w.height, w.title.as_str()), (0, 0, ""));
    let m = WindowsManagerConfig::default();
    assert_eq!((m.window_border_size, m.window_title_height), (2, 35));
    let _editor = Editor::new(c);
}

#[test]
fn title_with_version_appends_version() {
    let c = Config::default();
    assert_eq!(c.title, "Game Editor");
    assert_eq!(c.title_with_version("1.2.3"), "Game Editor v1.2.3");
}

#[test]
fn panel_labels() {
    assert_eq!(CorePluginPanel::TopBar.to_string(), "Top bar");
    assert_eq!(CorePluginPanel::StatusBar.to_string(), "Status bar");
    assert_eq!(DumyPluginPanel::StatusBar.to_string(), "Status dumy bar");
    assert_eq!(DumyPluginPanel::LeftBar.to_string(), "Left dumy bar");
}

#[test]
fn plugin_names() {
    assert_eq!(GameProcessPlugin.get_name(), "Game Process Plugin");
    assert_eq!(ViewportCustomProtocolPlugin.get_name(), "Viewport: Custom Protocol");
    assert_eq!(ViewportSharedMemoryPlugin.get_name(), "Viewport: Shared Memory");
    assert_eq!(ViewportWindowOverlayPlugin.get_name(), "Viewport: Window Overlay (Legacy)");
    assert!(ViewportSharedMemoryPlugin.get_description().contains("shared memory"));
}

#[test]
fn component_inspector_panel_holds_scene_tree() {
    let p = ComponentInspectorPanel();
    assert_eq!(p.name, "Component Inspector");
    assert_eq!(p.tools.len(), 1);
    assert_eq!(p.tools[0], scene_tree());
    assert_eq!(p.tools[0].name, "Scene Tree");
    assert_eq!(p.tools[0].placement, ToolPlacement::PanelByAlignment(PanelAligment::Start));
    assert_eq!(p.tools[0].alignment, ToolAlignment::Start);
    assert_eq!(SceneTreePanel.tools(), vec![scene_tree()]);
}

#[test]
fn editor_state_and_viewport_config_defaults() {
    let s = beditor::config::EditorState::default();
    assert!(s.selected_entity.is_none());
    assert!(s.entities.is_empty());
    assert!(!s.brp_connected);
    assert_eq!(s.config.top_bar.title, "Beditor v0.1.0");
    assert_eq!((s.config.top_bar.width, s.config.top_bar.height), (800, 600));
    assert_eq!(s.config.left_panel.title, "Beditor - Hierarchy");
    assert_eq!(s.config.screen_size_fallback, (1920, 1080));
    assert_eq!((s.config.window_border_size, s.config.window_title_height), (2, 35));
    let v = beditor::config::ViewportConfig::default();
    assert_eq!((v.width, v.height, v.target_fps), (1920, 1080, 60));
    assert_eq!(v.game_executable_path, "../bevy_demo_game/target/release/bevy_demo_game");
}

#[test]
fn editor_config_clone_keeps_every_field() {
    let c = EditorConfig::default();
    let d = c.clone();
    assert_eq!(d.top_bar.title, c.top_bar.title);
    assert_eq!(d.right_panel.title, "Beditor - Inspector");
    assert_eq!(d.screen_size_fallback, c.screen_size_fallback);
}
