use vstd::prelude::*;
use vstd::string::*;

use crate::i18n::{Catalog, Translation, TranslationView};
use crate::menu::MenuBarGroupConfig;
use crate::plugin::{PanelConfig, Plugin, Tool, ToolAlignment, ToolPlacement};
use crate::resource_id::{id_text, ResourceId, ResourceType};
use crate::str_map::StrMap;
use crate::workspace::Workspace;

verus! {

/// The panels that the core plugin provides.
#[derive(Clone, Copy, Debug, PartialEq, Eq, Structural)]
pub enum CorePluginPanel {
    TopBar,
    StatusBar,
}

/// The label a core panel is shown and looked up by.
pub open spec fn core_panel_label(p: CorePluginPanel) -> Seq<char> {
    match p {
        CorePluginPanel::TopBar => "Top bar"@,
        CorePluginPanel::StatusBar => "Status bar"@,
    }
}

impl CorePluginPanel {
    /// The panel's label.
    pub fn to_string(&self) -> (r: String)
        ensures
            r@ == core_panel_label(*self),
    {
        match self {
            CorePluginPanel::TopBar => String::from_str("Top bar"),
            CorePluginPanel::StatusBar => String::from_str("Status bar"),
        }
    }
}

/// The panels that the test plugin provides.
#[derive(Clone, Copy, Debug, PartialEq, Eq, Structural)]
pub enum DumyPluginPanel {
    StatusBar,
    LeftBar,
}

/// The label a test-plugin panel is shown and looked up by.
pub open spec fn dumy_panel_label(p: DumyPluginPanel) -> Seq<char> {
    match p {
        DumyPluginPanel::StatusBar => "Status dumy bar"@,
        DumyPluginPanel::LeftBar => "Left dumy bar"@,
    }
}

impl DumyPluginPanel {
    /// The panel's label.
    pub fn to_string(&self) -> (r: String)
        ensures
            r@ == dumy_panel_label(*self),
    {
        match self {
            DumyPluginPanel::StatusBar => String::from_str("Status dumy bar"),
            DumyPluginPanel::LeftBar => String::from_str("Left dumy bar"),
        }
    }
}

/// Published when the game process has ended.
pub struct GameProcessEndedEvent;

/// Plugin responsible for starting/stopping the game process.
pub struct GameProcessPlugin;

impl GameProcessPlugin {
    pub fn get_name(&self) -> (r: String)
        ensures
            r@ == "Game Process Plugin"@,
    {
        String::from_str("Game Process Plugin")
    }
}

/// Viewport rendering via a custom protocol handler.
pub struct ViewportCustomProtocolPlugin;

impl ViewportCustomProtocolPlugin {
    pub fn get_name(&self) -> (r: String)
        ensures
            r@ == "Viewport: Custom Protocol"@,
    {
        String::from_str("Viewport: Custom Protocol")
    }

    pub fn get_description(&self) -> (r: String)
        ensures
            r@ == "Provides viewport rendering via custom protocol handler"@,
    {
        String::from_str("Provides viewport rendering via custom protocol handler")
    }
}

/// Viewport rendering via shared memory.
pub struct ViewportSharedMemoryPlugin;

impl ViewportSharedMemoryPlugin {
    pub fn get_name(&self) -> (r: String)
        ensures
            r@ == "Viewport: Shared Memory"@,
    {
        String::from_str("Viewport: Shared Memory")
    }

    pub fn get_description(&self) -> (r: String)
        ensures
            r@ == "Provides high-performance viewport rendering via shared memory"@,
    {
        String::from_str("Provides high-performance viewport rendering via shared memory")
    }
}

/// Viewport rendering in a separate window laid over the editor.
pub struct ViewportWindowOverlayPlugin;

impl ViewportWindowOverlayPlugin {
    pub fn get_name(&self) -> (r: String)
        ensures
            r@ == "Viewport: Window Overlay (Legacy)"@,
    {
        String::from_str("Viewport: Window Overlay (Legacy)")
    }

    pub fn get_description(&self) -> (r: String)
        ensures
            r@ == "Legacy method using separate window overlay. Has issues with tiling WMs."@,
    {
        String::from_str("Legacy method using separate window overlay. Has issues with tiling WMs.")
    }
}

/// The test plugin's translations: its menu and two items, in English and
/// Ukrainian.
pub open spec fn dumy_translations() -> Map<Seq<char>, Map<Seq<char>, TranslationView>> {
    map![
        "en"@ => map![
            "main_menu:dumy"@ => TranslationView::Single("Dumy"@),
            "main_menu:dumy:do_something"@ => TranslationView::Single("Do something"@),
            "main_menu:dumy:do_more"@ => TranslationView::Single("Do more"@),
        ],
        "ua"@ => map![
            "main_menu:dumy"@ => TranslationView::Single("Bidon"@),
            "main_menu:dumy:do_something"@ => TranslationView::Single("Зробити щось"@),
            "main_menu:dumy:do_more"@ => TranslationView::Single("Зробити більше"@),
        ],
    ]
}

/// `t` is the test plugin's tool, placed at `alignment` and shown in every workspace.
pub open spec fn is_dumy_tool(t: Tool, alignment: ToolAlignment) -> bool {
    &&& t.name@ == "Dumy tool"@
    &&& t.alignment == alignment
    &&& t.workspaces@.len() == 0
}

/// A table of three single translations.
fn three_entries(k1: &str, v1: &str, k2: &str, v2: &str, k3: &str, v3: &str) -> (r: StrMap<Translation>)
    ensures
        r@ == Map::<Seq<char>, TranslationView>::empty().insert(k1@, TranslationView::Single(v1@)).insert(
            k2@,
            TranslationView::Single(v2@),
        ).insert(k3@, TranslationView::Single(v3@)),
{
    let mut t: StrMap<Translation> = StrMap::new();
    t.insert(String::from_str(k1), Translation::Single(String::from_str(v1)));
    t.insert(String::from_str(k2), Translation::Single(String::from_str(v2)));
    t.insert(String::from_str(k3), Translation::Single(String::from_str(v3)));
    t
}

/// The plugin used to exercise the editor: a left panel with one tool, a tool
/// in the core status bar, a menu with two items, and their translations.
pub fn dumy_plugin() -> (r: Plugin)
    ensures
        r.name@ == "Dumy"@,
        r.description@ == "Dumy plugin for testing purposes"@,
        r.menu_groups@.len() == 1,
        r.menu_groups@[0].label@ == "main_menu:dumy"@,
        r.menu_groups@[0].items@.len() == 2,
        r.menu_groups@[0].items@[0]@ == "main_menu:dumy:do_something"@,
        r.menu_groups@[0].items@[1]@ == "main_menu:dumy:do_more"@,
        r.i18n matches Some(c) && c@ == dumy_translations(),
        r.panels@.len() == 1,
        r.panels@[0].name@ == dumy_panel_label(DumyPluginPanel::LeftBar),
        r.panels@[0].workspaces@.len() == 0,
        r.panels@[0].tools@.len() == 1,
        is_dumy_tool(r.panels@[0].tools@[0], ToolAlignment::Start),
        r.panels@[0].tools@[0].placement matches ToolPlacement::PanelByName(n) && n@ == dumy_panel_label(
            DumyPluginPanel::LeftBar,
        ),
        r.tools@.len() == 1,
        is_dumy_tool(r.tools@[0], ToolAlignment::End),
        r.tools@[0].placement matches ToolPlacement::ByResourceId(id) && id@ == id_text(
            ResourceType::Panel,
            "Core"@,
            "status_bar"@,
        ),
        r.workspaces@.len() == 0,
        r.is_enabled,
        !r.is_initialized,
{
    let en = three_entries(
        "main_menu:dumy",
        "Dumy",
        "main_menu:dumy:do_something",
        "Do something",
        "main_menu:dumy:do_more",
        "Do more",
    );
    let ua = three_entries(
        "main_menu:dumy",
        "Bidon",
        "main_menu:dumy:do_something",
        "Зробити щось",
        "main_menu:dumy:do_more",
        "Зробити більше",
    );
    let mut catalog: Catalog = StrMap::new();
    catalog.insert(String::from_str("en"), en);
    catalog.insert(String::from_str("ua"), ua);
    proof {
        reveal_strlit("en");
        reveal_strlit("ua");
        reveal_strlit("main_menu:dumy");
        reveal_strlit("main_menu:dumy:do_something");
        reveal_strlit("main_menu:dumy:do_more");
    }
    assert(catalog@ =~= dumy_translations());
    let panel_tool = Tool {
        placement: ToolPlacement::PanelByName(DumyPluginPanel::LeftBar.to_string()),
        name: String::from_str("Dumy tool"),
        alignment: ToolAlignment::Start,
        workspaces: Vec::new(),
    };
    let panel = PanelConfig {
        name: DumyPluginPanel::LeftBar.to_string(),
        tools: vec![panel_tool],
        workspaces: Vec::new(),
    };
    let status_tool = Tool {
        placement: ToolPlacement::ByResourceId(ResourceId::panel("Core", "status_bar")),
        name: String::from_str("Dumy tool"),
        alignment: ToolAlignment::End,
        workspaces: Vec::new(),
    };
    let menu = MenuBarGroupConfig {
        label: String::from_str("main_menu:dumy"),
        items: vec![
            String::from_str("main_menu:dumy:do_something"),
            String::from_str("main_menu:dumy:do_more"),
        ],
    };
    Plugin {
        name: String::from_str("Dumy"),
        description: String::from_str("Dumy plugin for testing purposes"),
        panels: vec![panel],
        workspaces: Vec::new(),
        is_enabled: true,
        is_initialized: false,
        tools: vec![status_tool],
        menu_groups: vec![menu],
        i18n: Some(catalog),
    }
}

/// `t` is a tool named `name`, placed in the panel `panel` at `alignment`
/// and shown in every workspace.
pub open spec fn is_panel_tool(t: Tool, name: Seq<char>, panel: Seq<char>, alignment: ToolAlignment) -> bool {
    &&& t.name@ == name
    &&& t.placement matches ToolPlacement::PanelByName(n) && n@ == panel
    &&& t.alignment == alignment
    &&& t.workspaces@.len() == 0
}

/// Law: a panel tool described for a name, a panel and an alignment has
/// exactly that name, sits in that panel and has that alignment.
pub proof fn law_panel_tool_has_requested_place(t: Tool, name: Seq<char>, panel: Seq<char>, alignment: ToolAlignment)
    requires
        is_panel_tool(t, name, panel, alignment),
    ensures
        t.name@ == name,
        t.alignment == alignment,
        t.placement matches ToolPlacement::PanelByName(n) && n@ == panel,
{
}

/// A tool named `name` in the panel `panel` at `alignment`.
fn panel_tool(name: &str, panel: &str, alignment: ToolAlignment) -> (r: Tool)
    ensures
        is_panel_tool(r, name@, panel@, alignment),
        r.name@ == name@,
        r.alignment == alignment,
        r.placement matches ToolPlacement::PanelByName(n) && n@ == panel@,
        r.workspaces@.len() == 0,
{
    Tool {
        placement: ToolPlacement::PanelByName(String::from_str(panel)),
        name: String::from_str(name),
        alignment,
        workspaces: Vec::new(),
    }
}

/// An empty workspace named `name`.
fn empty_workspace(name: &str) -> (r: Workspace)
    ensures
        r.name@ == name@,
        r.panels@.len() == 0,
{
    Workspace { name: String::from_str(name), panels: Vec::new() }
}

/// The core plugin: the status bar, shown in the welcome, scene editor and
/// playtest workspaces, the welcome panel, shown in the welcome workspace, and
/// those three workspaces, empty.
pub fn core_plugin() -> (r: Plugin)
    ensures
        r.name@ == "Core"@,
        r.description@ == "Core plugin providing essential tools."@,
        r.panels@.len() == 2,
        r.panels@[0].name@ == "status_bar"@,
        r.panels@[0].tools@.len() == 1,
        is_panel_tool(r.panels@[0].tools@[0], "Status bar"@, "status_bar"@, ToolAlignment::Start),
        r.panels@[0].workspaces@.len() == 3,
        r.panels@[0].workspaces@[0]@ == id_text(ResourceType::Workspace, "Core"@, "welcome"@),
        r.panels@[0].workspaces@[1]@ == id_text(ResourceType::Workspace, "Core"@, "scene_editor"@),
        r.panels@[0].workspaces@[2]@ == id_text(ResourceType::Workspace, "Core"@, "playtest"@),
        r.panels@[1].name@ == "welcome"@,
        r.panels@[1].tools@.len() == 1,
        is_panel_tool(r.panels@[1].tools@[0], "Welcome"@, "welcome"@, ToolAlignment::Start),
        r.panels@[1].workspaces@.len() == 1,
        r.panels@[1].workspaces@[0]@ == id_text(ResourceType::Workspace, "Core"@, "welcome"@),
        r.workspaces@.len() == 3,
        r.workspaces@[0].name@ == "welcome"@ && r.workspaces@[0].panels@.len() == 0,
        r.workspaces@[1].name@ == "scene_editor"@ && r.workspaces@[1].panels@.len() == 0,
        r.workspaces@[2].name@ == "playtest"@ && r.workspaces@[2].panels@.len() == 0,
        r.tools@.len() == 0,
        r.menu_groups@.len() == 0,
        r.i18n is None,
        r.is_enabled,
        !r.is_initialized,
{
    let status_bar = PanelConfig {
        name: String::from_str("status_bar"),
        tools: vec![panel_tool("Status bar", "status_bar", ToolAlignment::Start)],
        workspaces: vec![
            ResourceId::workspace("Core", "welcome"),
            ResourceId::workspace("Core", "scene_editor"),
            ResourceId::workspace("Core", "playtest"),
        ],
    };
    let welcome = PanelConfig {
        name: String::from_str("welcome"),
        tools: vec![panel_tool("Welcome", "welcome", ToolAlignment::Start)],
        workspaces: vec![ResourceId::workspace("Core", "welcome")],
    };
    Plugin {
        name: String::from_str("Core"),
        description: String::from_str("Core plugin providing essential tools."),
        panels: vec![status_bar, welcome],
        workspaces: vec![
            empty_workspace("welcome"),
            empty_workspace("scene_editor"),
            empty_workspace("playtest"),
        ],
        is_enabled: true,
        is_initialized: false,
        tools: Vec::new(),
        menu_groups: Vec::new(),
        i18n: None,
    }
}

/// The top bar plugin: the top bar panel, shown in the welcome, scene editor
/// and playtest workspaces, holding the logo, the main menu and the workspace
/// tabs at the start and the window controls at the end; and the File menu
/// with its Exit item.
pub fn top_bar_plugin() -> (r: Plugin)
    ensures
        r.name@ == "Top bar"@,
        r.description@ == "Top bar plugin providing default top bar menu."@,
        r.menu_groups@.len() == 1,
        r.menu_groups@[0].label@ == "main_menu:file"@,
        r.menu_groups@[0].items@.len() == 1,
        r.menu_groups@[0].items@[0]@ == "main_menu:file:exit"@,
        r.panels@.len() == 1,
        r.panels@[0].name@ == "top_bar"@,
        r.panels@[0].tools@.len() == 4,
        is_panel_tool(r.panels@[0].tools@[0], "Logo"@, "top_bar"@, ToolAlignment::Start),
        is_panel_tool(r.panels@[0].tools@[1], "Main menu"@, "top_bar"@, ToolAlignment::Start),
        is_panel_tool(r.panels@[0].tools@[2], "Workspace tabs"@, "top_bar"@, ToolAlignment::Start),
        is_panel_tool(r.panels@[0].tools@[3], "Window controls"@, "top_bar"@, ToolAlignment::End),
        r.panels@[0].tools@[0].alignment == ToolAlignment::Start,
        r.panels@[0].tools@[1].alignment == ToolAlignment::Start,
        r.panels@[0].tools@[2].alignment == ToolAlignment::Start,
        r.panels@[0].tools@[3].alignment == ToolAlignment::End,
        r.panels@[0].tools@[3].name@ == "Window controls"@,
        r.panels@[0].workspaces@.len() == 3,
        r.panels@[0].workspaces@[0]@ == id_text(ResourceType::Workspace, "Core"@, "welcome"@),
        r.panels@[0].workspaces@[1]@ == id_text(ResourceType::Workspace, "Core"@, "scene_editor"@),
        r.panels@[0].workspaces@[2]@ == id_text(ResourceType::Workspace, "Core"@, "playtest"@),
        r.workspaces@.len() == 0,
        r.tools@.len() == 0,
        r.i18n is None,
        r.is_enabled,
        !r.is_initialized,
{
    let top_bar = PanelConfig {
        name: String::from_str("top_bar"),
        tools: vec![
            panel_tool("Logo", "top_bar", ToolAlignment::Start),
            panel_tool("Main menu", "top_bar", ToolAlignment::Start),
            panel_tool("Workspace tabs", "top_bar", ToolAlignment::Start),
            panel_tool("Window controls", "top_bar", ToolAlignment::End),
        ],
        workspaces: vec![
            ResourceId::workspace("Core", "welcome"),
            ResourceId::workspace("Core", "scene_editor"),
            ResourceId::workspace("Core", "playtest"),
        ],
    };
    let file_menu = MenuBarGroupConfig {
        label: String::from_str("main_menu:file"),
        items: vec![String::from_str("main_menu:file:exit")],
    };
    Plugin {
        name: String::from_str("Top bar"),
        description: String::from_str("Top bar plugin providing default top bar menu."),
        panels: vec![top_bar],
        workspaces: Vec::new(),
        is_enabled: true,
        is_initialized: false,
        tools: Vec::new(),
        menu_groups: vec![file_menu],
        i18n: None,
    }
}

/// A panel named `name` holding the single tool `name`, shown in the scene
/// editor workspace.
fn scene_editor_panel(name: &str) -> (r: PanelConfig)
    ensures
        r.name@ == name@,
        r.tools@.len() == 1,
        is_panel_tool(r.tools@[0], name@, name@, ToolAlignment::Start),
        r.workspaces@.len() == 1,
        r.workspaces@[0]@ == id_text(ResourceType::Workspace, "Core"@, "scene_editor"@),
{
    PanelConfig {
        name: String::from_str(name),
        tools: vec![panel_tool(name, name, ToolAlignment::Start)],
        workspaces: vec![ResourceId::workspace("Core", "scene_editor")],
    }
}

/// The scene editor plugin: the entity browser and inspector panels, each
/// holding the tool of the same name, shown in the scene editor workspace.
pub fn scene_editor_plugin() -> (r: Plugin)
    ensures
        r.name@ == "SceneEditor"@,
        r.description@.len() == 0,
        r.panels@.len() == 2,
        r.panels@[0].name@ == "Entity Browser"@,
        r.panels@[0].tools@.len() == 1,
        is_panel_tool(r.panels@[0].tools@[0], "Entity Browser"@, "Entity Browser"@, ToolAlignment::Start),
        r.panels@[1].name@ == "Inspector"@,
        r.panels@[1].tools@.len() == 1,
        is_panel_tool(r.panels@[1].tools@[0], "Inspector"@, "Inspector"@, ToolAlignment::Start),
        forall|i: int|
            0 <= i < 2 ==> (#[trigger] r.panels@[i]).workspaces@.len() == 1 && r.panels@[i].workspaces@[0]@
                == id_text(ResourceType::Workspace, "Core"@, "scene_editor"@),
        r.workspaces@.len() == 0,
        r.tools@.len() == 0,
        r.menu_groups@.len() == 0,
        r.i18n is None,
        r.is_enabled,
        !r.is_initialized,
{
    Plugin {
        name: String::from_str("SceneEditor"),
        description: String::new(),
        panels: vec![scene_editor_panel("Entity Browser"), scene_editor_panel("Inspector")],
        workspaces: Vec::new(),
        is_enabled: true,
        is_initialized: false,
        tools: Vec::new(),
        menu_groups: Vec::new(),
        i18n: None,
    }
}

/// The asset browser plugin: its own workspace, which shows the core top bar
/// and status bar, and the asset browser panel shown in it.
pub fn asset_browser_plugin() -> (r: Plugin)
    ensures
        r.name@ == "Asset Browser"@,
        r.description@ == "Plugin responsible for browsing and managing game assets"@,
        r.panels@.len() == 1,
        r.panels@[0].name@ == "asset browser"@,
        r.panels@[0].tools@.len() == 1,
        is_panel_tool(r.panels@[0].tools@[0], "Asset Browser"@, "asset browser"@, ToolAlignment::Start),
        r.panels@[0].workspaces@.len() == 1,
        r.panels@[0].workspaces@[0]@ == id_text(ResourceType::Workspace, "Asset Browser"@, "asset browser"@),
        r.workspaces@.len() == 1,
        r.workspaces@[0].name@ == "asset browser"@,
        r.workspaces@[0].panels@.len() == 2,
        r.workspaces@[0].panels@[0]@ == id_text(ResourceType::Panel, "Core"@, "top_bar"@),
        r.workspaces@[0].panels@[1]@ == id_text(ResourceType::Panel, "Core"@, "status_bar"@),
        r.tools@.len() == 0,
        r.menu_groups@.len() == 0,
        r.i18n is None,
        r.is_enabled,
        !r.is_initialized,
{
    let panel = PanelConfig {
        name: String::from_str("asset browser"),
        tools: vec![panel_tool("Asset Browser", "asset browser", ToolAlignment::Start)],
        workspaces: vec![ResourceId::workspace("Asset Browser", "asset browser")],
    };
    let workspace = Workspace {
        name: String::from_str("asset browser"),
        panels: vec![ResourceId::panel("Core", "top_bar"), ResourceId::panel("Core", "status_bar")],
    };
    Plugin {
        name: String::from_str("Asset Browser"),
        description: String::from_str("Plugin responsible for browsing and managing game assets"),
        panels: vec![panel],
        workspaces: vec![workspace],
        is_enabled: true,
        is_initialized: false,
        tools: Vec::new(),
        menu_groups: Vec::new(),
        i18n: None,
    }
}

/// The viewport plugin: the viewport panel, shown in the scene editor
/// workspace, and the frame counter at the end of the core status bar, shown
/// in the scene editor workspace.
pub fn viewport_plugin() -> (r: Plugin)
    ensures
        r.name@ == "Viewport"@,
        r.description@ == "Viewport plugin responsible for reading frames from the game process"@,
        r.panels@.len() == 1,
        r.panels@[0].name@ == "Viewport"@,
        r.panels@[0].tools@.len() == 1,
        is_panel_tool(r.panels@[0].tools@[0], "Viewport"@, "Viewport"@, ToolAlignment::Start),
        r.panels@[0].workspaces@.len() == 1,
        r.panels@[0].workspaces@[0]@ == id_text(ResourceType::Workspace, "Core"@, "scene_editor"@),
        r.tools@.len() == 1,
        r.tools@[0].name@ == "Frame counter"@,
        r.tools@[0].alignment == ToolAlignment::End,
        r.tools@[0].placement matches ToolPlacement::ByResourceId(id) && id@ == id_text(
            ResourceType::Panel,
            "Core"@,
            "status_bar"@,
        ),
        r.tools@[0].workspaces@.len() == 1,
        r.tools@[0].workspaces@[0]@ == id_text(ResourceType::Workspace, "Core"@, "scene_editor"@),
        r.workspaces@.len() == 0,
        r.menu_groups@.len() == 0,
        r.i18n is None,
        r.is_enabled,
        !r.is_initialized,
{
    let panel = PanelConfig {
        name: String::from_str("Viewport"),
        tools: vec![panel_tool("Viewport", "Viewport", ToolAlignment::Start)],
        workspaces: vec![ResourceId::workspace("Core", "scene_editor")],
    };
    let frame_counter = Tool {
        placement: ToolPlacement::ByResourceId(ResourceId::panel("Core", "status_bar")),
        name: String::from_str("Frame counter"),
        alignment: ToolAlignment::End,
        workspaces: vec![ResourceId::workspace("Core", "scene_editor")],
    };
    Plugin {
        name: String::from_str("Viewport"),
        description: String::from_str("Viewport plugin responsible for reading frames from the game process"),
        panels: vec![panel],
        workspaces: Vec::new(),
        is_enabled: true,
        is_initialized: false,
        tools: vec![frame_counter],
        menu_groups: Vec::new(),
        i18n: None,
    }
}

/// `p` is named `name`, described by `description`, and contributes nothing
/// the layout shows: no panel, tool, workspace, menu or translation.
pub open spec fn is_service_plugin(p: Plugin, name: Seq<char>, description: Seq<char>) -> bool {
    &&& p.name@ == name
    &&& p.description@ == description
    &&& p.panels@.len() == 0
    &&& p.workspaces@.len() == 0
    &&& p.tools@.len() == 0
    &&& p.menu_groups@.len() == 0
    &&& p.i18n is None
    &&& p.is_enabled
    &&& !p.is_initialized
}

/// A plugin that only runs in the background.
fn service_plugin(name: &str, description: &str) -> (r: Plugin)
    ensures
        is_service_plugin(r, name@, description@),
{
    Plugin {
        name: String::from_str(name),
        description: String::from_str(description),
        panels: Vec::new(),
        workspaces: Vec::new(),
        is_enabled: true,
        is_initialized: false,
        tools: Vec::new(),
        menu_groups: Vec::new(),
        i18n: None,
    }
}

/// The plugin that speaks the game's remote protocol.
pub fn brp_plugin() -> (r: Plugin)
    ensures
        is_service_plugin(r, "BRP"@, "Plugin responsible for reading frames from the game process"@),
{
    service_plugin("BRP", "Plugin responsible for reading frames from the game process")
}

/// The plugin that speaks the editor protocol with the game.
pub fn bep_plugin() -> (r: Plugin)
    ensures
        is_service_plugin(r, "BEP"@, "Plugin responsible for reading frames from the game process"@),
{
    service_plugin("BEP", "Plugin responsible for reading frames from the game process")
}

/// The plugin that starts and stops the game process.
pub fn game_process_plugin() -> (r: Plugin)
    ensures
        is_service_plugin(r, "Game Process"@, "Plugin responsible for starting/stopping the game process"@),
{
    service_plugin("Game Process", "Plugin responsible for starting/stopping the game process")
}

/// The plugin that carries messages over standard input and output.
pub fn stdio_transport_plugin() -> (r: Plugin)
    ensures
        is_service_plugin(r, "Stdio Transport"@, "Implements Stdio Transport"@),
{
    service_plugin("Stdio Transport", "Implements Stdio Transport")
}

/// The language plugin's translations: the Languages menu in English and
/// Ukrainian.
pub open spec fn i18n_core_translations() -> Map<Seq<char>, Map<Seq<char>, TranslationView>> {
    map![
        "en"@ => map!["menu_bar::i18n_core::languages"@ => TranslationView::Single("Languages"@)],
        "uk"@ => map!["menu_bar::i18n_core::languages"@ => TranslationView::Single("Мови"@)],
    ]
}

/// The language plugin: an empty Languages menu, filled with the languages
/// at run time, and its translations.
pub fn i18n_core_plugin() -> (r: Plugin)
    ensures
        r.name@ == "i18n_core"@,
        r.description@ == "Core plugin for i18n support"@,
        r.menu_groups@.len() == 1,
        r.menu_groups@[0].label@ == "menu_bar::i18n_core::languages"@,
        r.menu_groups@[0].items@.len() == 0,
        r.i18n matches Some(c) && c@ == i18n_core_translations(),
        r.panels@.len() == 0,
        r.workspaces@.len() == 0,
        r.tools@.len() == 0,
        r.is_enabled,
        !r.is_initialized,
{
    let mut en: StrMap<Translation> = StrMap::new();
    en.insert(String::from_str("menu_bar::i18n_core::languages"), Translation::Single(String::from_str("Languages")));
    let mut uk: StrMap<Translation> = StrMap::new();
    uk.insert(String::from_str("menu_bar::i18n_core::languages"), Translation::Single(String::from_str("Мови")));
    let mut catalog: Catalog = StrMap::new();
    catalog.insert(String::from_str("en"), en);
    catalog.insert(String::from_str("uk"), uk);
    proof {
        reveal_strlit("en");
        reveal_strlit("uk");
    }
    assert(catalog@ =~= i18n_core_translations());
    let mut p = service_plugin("i18n_core", "Core plugin for i18n support");
    p.menu_groups = vec![
        MenuBarGroupConfig { label: String::from_str("menu_bar::i18n_core::languages"), items: Vec::new() },
    ];
    p.i18n = Some(catalog);
    p
}

} // verus!
