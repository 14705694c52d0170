use beditor::asset_browser::{browser_items, sort_items, AssetItem, Item, ItemType};
use beditor::i18n::{I18n, Translation};
use beditor::menu::{menu_groups_of_plugins, merge_menu_groups, MenuBarGroupConfig};
use beditor::str_map::StrMap;
use beditor::plugins::dumy_plugin;
use beditor::{Plugin, PluginRegistry, ResourceId, ToolAlignment, ToolPlacement};

fn table(pairs: &[(&str, Translation)]) -> StrMap<Translation> {
    let mut t = StrMap::new();
    for (k, v) in pairs {
        t.insert(k.to_string(), v.duplicate());
    }
    t
}

fn sample_i18n() -> I18n {
    let mut i = I18n::new("en".to_string());
    i.translations.insert(
        "en".to_string(),
        table(&[
            ("menu", Translation::Single("Languages".to_string())),
            (
                "items",
                Translation::Plural { one: "item".to_string(), few: "items".to_string(), many: "items".to_string() },
            ),
        ]),
    );
    i.translations.insert("uk".to_string(), table(&[("menu", Translation::Single("Мови".to_string()))]));
    i
}

#[test]
fn get_uses_current_language_and_falls_back_to_key() {
    let mut i = sample_i18n();
    assert_eq!(i.get("menu"), "Languages");
    assert_eq!(i.get("items"), "item");
    assert_eq!(i.get("missing"), "missing");
    i.change_language("uk");
    assert_eq!(i.language, "uk");
    assert_eq!(i.get("menu"), "Мови");
    assert_eq!(i.get("items"), "items");
}

#[test]
fn invalid_language_code_is_ignored() {
    let mut i = sample_i18n();
    i.change_language("not a language!");
    assert_eq!(i.language, "en");
    i.change_language("EN-us");
    assert_eq!(i.language, "en-US");
}

#[test]
fn get_for_language_and_plural() {
    let i = sample_i18n();
    assert_eq!(i.get_for_language("uk", "menu"), Some("Мови".to_string()));
    assert_eq!(i.get_for_language("uk", "items"), None);
    assert_eq!(i.get_for_language("de", "menu"), None);
    assert_eq!(i.get_plural("menu", 3), "Languages");
    assert_eq!(i.get_plural("items", 3), "items");
    assert_eq!(i.get_plural("nothing", 1), "nothing");
    let mut langs = i.languages();
    langs.sort();
    assert_eq!(langs, vec!["en".to_string(), "uk".to_string()]);
}

fn plugin_with(name: &str, enabled: bool, catalog: Option<StrMap<StrMap<Translation>>>) -> Plugin {
    Plugin {
        name: name.to_string(),
        description: String::new(),
        panels: vec![],
        workspaces: vec![],
        is_enabled: enabled,
        is_initialized: false,
        tools: vec![],
        menu_groups: vec![],
        i18n: catalog,
    }
}

#[test]
fn collect_translations_merges_enabled_plugins_in_order() {
    let mut a = StrMap::new();
    a.insert("en".to_string(), table(&[("x", Translation::Single("A".to_string())), ("y", Translation::Single("Y".to_string()))]));
    let mut b = StrMap::new();
    b.insert("en".to_string(), table(&[("x", Translation::Single("B".to_string()))]));
    b.insert("ua".to_string(), table(&[("x", Translation::Single("Б".to_string()))]));
    let mut c = StrMap::new();
    c.insert("en".to_string(), table(&[("x", Translation::Single("C".to_string()))]));
    let registry = PluginRegistry {
        plugins: vec![plugin_with("a", true, Some(a)), plugin_with("b", true, Some(b)), plugin_with("c", false, Some(c)), plugin_with("d", true, None)],
    };
    let mut i = I18n::new("en".to_string());
    i.collect_translations(&registry);
    assert_eq!(i.get("x"), "B");
    assert_eq!(i.get("y"), "Y");
    assert_eq!(i.get_for_language("ua", "x"), Some("Б".to_string()));
    assert_eq!(i.languages().len(), 2);
}

fn group(label: &str, items: Vec<u32>) -> MenuBarGroupConfig<u32> {
    MenuBarGroupConfig { label: label.to_string(), items }
}

#[test]
fn menus_with_same_label_are_joined_in_place() {
    let merged = merge_menu_groups(vec![group("file", vec![1]), group("edit", vec![2]), group("file", vec![3, 4])]);
    let flat: Vec<(String, Vec<u32>)> = merged.into_iter().map(|g| (g.label, g.items)).collect();
    assert_eq!(flat, vec![("file".to_string(), vec![1, 3, 4]), ("edit".to_string(), vec![2])]);
}

#[test]
fn menus_of_disabled_plugins_are_left_out() {
    let merged = menu_groups_of_plugins(vec![
        (true, vec![group("file", vec![1])]),
        (false, vec![group("file", vec![9]), group("dumy", vec![9])]),
        (true, vec![group("dumy", vec![5]), group("file", vec![2])]),
    ]);
    let flat: Vec<(String, Vec<u32>)> = merged.into_iter().map(|g| (g.label, g.items)).collect();
    assert_eq!(flat, vec![("file".to_string(), vec![1, 2]), ("dumy".to_string(), vec![5])]);
}

fn item(path: &str, kind: ItemType) -> Item<String> {
    Item { path: path.to_string(), name: Some(path.as_bytes().to_vec()), item_type: kind }
}

fn paths(items: &[Item<String>]) -> Vec<&str> {
    items.iter().map(|i| i.path.as_str()).collect()
}

#[test]
fn way_up_then_folders_then_files_by_name() {
    let sorted = sort_items(vec![
        item("b.png", ItemType::File(AssetItem::Image)),
        item("zeta", ItemType::Folder),
        item("a.ron", ItemType::File(AssetItem::Unknown)),
        item("..", ItemType::MoveUp),
        item("Alpha", ItemType::Folder),
    ]);
    assert_eq!(paths(&sorted), vec!["..", "Alpha", "zeta", "a.ron", "b.png"]);
}

#[test]
fn names_compare_byte_by_byte_prefix_first() {
    let sorted = sort_items(vec![item("ab", ItemType::Folder), item("a", ItemType::Folder), item("B", ItemType::Folder)]);
    assert_eq!(paths(&sorted), vec!["B", "a", "ab"]);
}

#[test]
fn listing_becomes_browser_entries() {
    let items = browser_items(
        false,
        Some(("/proj".to_string(), Some(b"proj".to_vec()))),
        vec![
            ("/proj/sub/x.txt".to_string(), Some(b"x.txt".to_vec()), false),
            ("/proj/sub/dir".to_string(), Some(b"dir".to_vec()), true),
        ],
    );
    assert_eq!(paths(&items), vec!["/proj", "/proj/sub/dir", "/proj/sub/x.txt"]);
    assert_eq!(items[0].item_type, ItemType::MoveUp);
    assert_eq!(items[1].item_type, ItemType::Folder);
    assert_eq!(items[2].item_type, ItemType::File(AssetItem::Unknown));
    let root = browser_items::<String>(false, None, vec![]);
    assert!(root.is_empty());
    let at_root = browser_items(true, Some(("/".to_string(), None)), vec![("/proj/a".to_string(), Some(b"a".to_vec()), false)]);
    assert_eq!(paths(&at_root), vec!["/proj/a"]);
}

#[test]
fn entries_in_the_same_place_keep_their_order() {
    let mut first = item("same", ItemType::Folder);
    first.path = "/one/same".to_string();
    let mut second = item("same", ItemType::Folder);
    second.path = "/two/same".to_string();
    let sorted = sort_items(vec![
        item("z", ItemType::File(AssetItem::Scene)),
        first,
        item("..", ItemType::MoveUp),
        second,
        Item { path: "/up2".to_string(), name: None, item_type: ItemType::MoveUp },
    ]);
    assert_eq!(paths(&sorted), vec!["..", "/up2", "/one/same", "/two/same", "z"]);
}

#[test]
fn dumy_plugin_contributions() {
    let p = dumy_plugin();
    assert_eq!(p.name, "Dumy");
    assert_eq!(p.description, "Dumy plugin for testing purposes");
    assert_eq!(p.menu_groups.len(), 1);
    assert_eq!(p.menu_groups[0].label, "main_menu:dumy");
    assert_eq!(p.menu_groups[0].items, vec!["main_menu:dumy:do_something".to_string(), "main_menu:dumy:do_more".to_string()]);
    assert_eq!(p.panels.len(), 1);
    assert_eq!(p.panels[0].name, "Left dumy bar");
    assert_eq!(p.panels[0].tools[0].name, "Dumy tool");
    assert_eq!(p.panels[0].tools[0].placement, ToolPlacement::PanelByName("Left dumy bar".to_string()));
    assert_eq!(p.tools.len(), 1);
    assert_eq!(p.tools[0].alignment, ToolAlignment::End);
    assert_eq!(p.tools[0].placement, ToolPlacement::ByResourceId(ResourceId::panel("Core", "status_bar")));
    assert!(p.is_enabled);
    let catalog = p.i18n.as_ref().unwrap();
    let ua = catalog.get("ua").unwrap();
    let single = |t: Option<&Translation>| match t {
        Some(Translation::Single(s)) => Some(s.clone()),
        _ => None,
    };
    assert_eq!(single(ua.get("main_menu:dumy")), Some("Bidon".to_string()));
    assert_eq!(single(ua.get("main_menu:dumy:do_something")), Some("Зробити щось".to_string()));
    let en = catalog.get("en").unwrap();
    assert_eq!(single(en.get("main_menu:dumy:do_more")), Some("Do more".to_string()));
    let mut langs = catalog.keys();
    langs.sort();
    assert_eq!(langs, vec!["en".to_string(), "ua".to_string()]);
}

#[test]
fn menus_of_the_editor_plugins() {
    let plugins = vec![beditor::plugins::top_bar_plugin(), dumy_plugin(), beditor::plugins::core_plugin()];
    let menus = menu_groups_of_plugins(plugins.into_iter().map(|p| (p.is_enabled, p.menu_groups)).collect());
    let labels: Vec<&str> = menus.iter().map(|g| g.label.as_str()).collect();
    assert_eq!(labels, vec!["main_menu:file", "main_menu:dumy"]);
    assert_eq!(menus[0].items, vec!["main_menu:file:exit".to_string()]);
    assert_eq!(menus[1].items.len(), 2);
}

#[test]
fn language_and_test_plugins_translate_their_menus() {
    let registry = PluginRegistry { plugins: vec![beditor::plugins::i18n_core_plugin(), dumy_plugin()] };
    let mut i = I18n::new("uk".to_string());
    i.collect_translations(&registry);
    assert_eq!(i.get("menu_bar::i18n_core::languages"), "Мови");
    assert_eq!(i.get("main_menu:dumy"), "main_menu:dumy");
    assert_eq!(i.get_for_language("ua", "main_menu:dumy"), Some("Bidon".to_string()));
    assert_eq!(i.get_for_language("en", "menu_bar::i18n_core::languages"), Some("Languages".to_string()));
    let mut langs = i.languages();
    langs.sort();
    assert_eq!(langs, vec!["en".to_string(), "ua".to_string(), "uk".to_string()]);
}

#[test]
fn background_plugins_contribute_no_layout() {
    for p in [
        beditor::plugins::brp_plugin(),
        beditor::plugins::bep_plugin(),
        beditor::plugins::game_process_plugin(),
        beditor::plugins::stdio_transport_plugin(),
    ] {
        assert!(p.panels.is_empty() && p.workspaces.is_empty() && p.tools.is_empty() && p.menu_groups.is_empty());
        assert!(p.i18n.is_none());
    }
    assert_eq!(beditor::plugins::game_process_plugin().name, "Game Process");
    assert_eq!(beditor::plugins::stdio_transport_plugin().description, "Implements Stdio Transport");
}
