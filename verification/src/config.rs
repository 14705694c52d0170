use vstd::prelude::*;
use vstd::string::*;

verus! {

/// Size, title and decorations of one editor window.
#[derive(Debug)]
pub struct WindowConfig {
    pub width: u32,
    pub height: u32,
    pub title: String,
    pub decorations: bool,
    pub resizable: bool,
}

impl Clone for WindowConfig {
    fn clone(&self) -> (r: Self)
        ensures
            r == *self,
    {
        WindowConfig {
            width: self.width,
            height: self.height,
            title: self.title.clone(),
            decorations: self.decorations,
            resizable: self.resizable,
        }
    }
}

impl Default for WindowConfig {
    fn default() -> (r: Self)
        ensures
            r.width == 0,
            r.height == 0,
            r.title@.len() == 0,
            !r.decorations,
            !r.resizable,
    {
        WindowConfig {
            width: 0,
            height: 0,
            title: String::new(),
            decorations: false,
            resizable: false,
        }
    }
}

/// Layout of the editor's windows.
#[derive(Debug)]
pub struct EditorConfig {
    pub top_bar: WindowConfig,
    pub left_panel: WindowConfig,
    pub right_panel: WindowConfig,
    /// If screen size detection fails, use this size
    pub screen_size_fallback: (u32, u32),
    pub window_border_size: u32,
    pub window_title_height: u32,
}

/// The application's name, as window titles show it.
pub const APP_NAME: &'static str = "Beditor";

/// A window of the given size titled `title`, with the default decorations.
fn titled_window(width: u32, height: u32, title: String) -> (r: WindowConfig)
    ensures
        r.width == width,
        r.height == height,
        r.title@ == title@,
        !r.decorations,
        !r.resizable,
{
    WindowConfig { width, height, title, decorations: false, resizable: false }
}

impl Clone for EditorConfig {
    fn clone(&self) -> (r: Self)
        ensures
            r == *self,
    {
        EditorConfig {
            top_bar: self.top_bar.clone(),
            left_panel: self.left_panel.clone(),
            right_panel: self.right_panel.clone(),
            screen_size_fallback: self.screen_size_fallback,
            window_border_size: self.window_border_size,
            window_title_height: self.window_title_height,
        }
    }
}

/// The layout the editor starts with: a top bar of 800 by 600 titled with the
/// application's name and version, side panels of 400 by 300 for the hierarchy
/// and the inspector, all undecorated and fixed in size, a 1920 by 1080 screen
/// when none is known, 2-pixel window borders and 35-pixel title bars.
pub open spec fn is_default_editor_config(r: EditorConfig) -> bool {
    &&& r.top_bar.width == 800 && r.top_bar.height == 600
    &&& r.top_bar.title@ == APP_NAME@ + " v0.1.0"@
    &&& r.left_panel.width == 400 && r.left_panel.height == 300
    &&& r.left_panel.title@ == APP_NAME@ + " - Hierarchy"@
    &&& r.right_panel.width == 400 && r.right_panel.height == 300
    &&& r.right_panel.title@ == APP_NAME@ + " - Inspector"@
    &&& !r.top_bar.decorations && !r.top_bar.resizable
    &&& !r.left_panel.decorations && !r.left_panel.resizable
    &&& !r.right_panel.decorations && !r.right_panel.resizable
    &&& r.screen_size_fallback == (1920u32, 1080u32)
    &&& r.window_border_size == 2
    &&& r.window_title_height == 35
}

impl Default for EditorConfig {
    fn default() -> (r: Self)
        ensures
            is_default_editor_config(r),
    {
        EditorConfig {
            top_bar: titled_window(800, 600, String::from_str(APP_NAME).concat(" v0.1.0")),
            left_panel: titled_window(400, 300, String::from_str(APP_NAME).concat(" - Hierarchy")),
            right_panel: titled_window(
                400,
                300,
                String::from_str(APP_NAME).concat(" - Inspector"),
            ),
            screen_size_fallback: (1920, 1080),
            window_border_size: 2,
            window_title_height: 35,
        }
    }
}

/// What the editor shows: the selected entity, the entities of the running
/// game, whether the game's remote protocol is connected, and the layout.
pub struct EditorState {
    pub selected_entity: Option<String>,
    pub entities: Vec<String>,
    pub brp_connected: bool,
    pub config: EditorConfig,
}

impl Default for EditorState {
    fn default() -> (r: Self)
        ensures
            r.selected_entity is None,
            r.entities@.len() == 0,
            !r.brp_connected,
            is_default_editor_config(r.config),
    {
        EditorState {
            selected_entity: None,
            entities: Vec::new(),
            brp_connected: false,
            config: EditorConfig::default(),
        }
    }
}

/// Where the game for the viewport comes from and how it renders.
pub struct ViewportConfig {
    pub width: u32,
    pub height: u32,
    pub game_executable_path: String,
    pub target_fps: u32,
}

impl Default for ViewportConfig {
    fn default() -> (r: Self)
        ensures
            r.width == 1920,
            r.height == 1080,
            r.game_executable_path@ == "../bevy_demo_game/target/release/bevy_demo_game"@,
            r.target_fps == 60,
    {
        ViewportConfig {
            width: 1920,
            height: 1080,
            game_executable_path: String::from_str("../bevy_demo_game/target/release/bevy_demo_game"),
            target_fps: 60,
        }
    }
}

/// Settings of the game editor's startup window.
pub struct Config {
    pub title: &'static str,
}

impl Default for Config {
    fn default() -> (r: Self)
        ensures
            r.title@ == "Game Editor"@,
    {
        Config { title: "Game Editor" }
    }
}

impl Config {
    /// The title followed by ` v` and the version (the package version, which
    /// the build supplies).
    pub fn title_with_version(&self, version: &str) -> (r: String)
        ensures
            r@ == self.title@ + " v"@ + version@,
    {
        String::from_str(self.title).concat(" v").concat(version)
    }
}

/// Window-frame measures that the window manager uses.
pub struct WindowsManagerConfig {
    pub window_border_size: u32,
    pub window_title_height: u32,
}

impl Default for WindowsManagerConfig {
    fn default() -> (r: Self)
        ensures
            r.window_border_size == 2,
            r.window_title_height == 35,
    {
        WindowsManagerConfig { window_border_size: 2, window_title_height: 35 }
    }
}

/// The editor, holding its window layout.
pub struct Editor {
    config: EditorConfig,
}

impl Editor {
    pub fn new(config: EditorConfig) -> (r: Self)
        ensures
            r.config() == config,
    {
        Editor { config }
    }

    pub closed spec fn config(self) -> EditorConfig {
        self.config
    }
}

} // verus!
