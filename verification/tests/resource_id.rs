use beditor::{ResourceId, ResourceType};

#[test]
fn test_panel_id() {
    let id = ResourceId::panel("core", "top_bar");
    assert_eq!(id.as_str(), "core::panel::top_bar");
    assert_eq!(id.plugin(), Some("core"));
    assert_eq!(id.name(), Some("top_bar"));
    assert_eq!(id.resource_type(), Some(ResourceType::Panel));
}

#[test]
fn test_workspace_id() {
    let id = ResourceId::workspace("viewport", "editor");
    assert_eq!(id.as_str(), "viewport::workspace::editor");
    assert_eq!(id.plugin(), Some("viewport"));
    assert_eq!(id.name(), Some("editor"));
    assert_eq!(id.resource_type(), Some(ResourceType::Workspace));
}

#[test]
fn test_tool_id() {
    let id = ResourceId::tool("core", "logo");
    assert_eq!(id.as_str(), "core::tool::logo");
    assert_eq!(id.resource_type(), Some(ResourceType::Tool));
}

#[test]
fn test_parse() {
    let id = ResourceId::panel("core", "status_bar");
    let (typ, plugin, name) = id.parse().unwrap();
    assert_eq!(typ, ResourceType::Panel);
    assert_eq!(plugin, "core");
    assert_eq!(name, "status_bar");
}

#[test]
fn test_from_string() {
    let id: ResourceId = "custom::panel::test".into();
    assert_eq!(id.plugin(), Some("custom"));
}

#[test]
fn test_display() {
    let id = ResourceId::panel("core", "top_bar");
    assert_eq!(id.to_string(), "core::panel::top_bar");
}

#[test]
fn parse_rejects_wrong_part_count() {
    let id: ResourceId = "core::panel".into();
    assert_eq!(id.parse(), None);
    assert_eq!(id.name(), None);
    assert_eq!(id.resource_type(), None);
    let id: ResourceId = "a::panel::b::c".into();
    assert_eq!(id.parse(), None);
}

#[test]
fn parse_rejects_unknown_type_word() {
    let id: ResourceId = "core::widget::x".into();
    assert_eq!(id.parse(), None);
    assert_eq!(id.plugin(), Some("core"));
}

#[test]
fn plugin_of_text_without_separator_is_whole_text() {
    let id: ResourceId = String::from("standalone").into();
    assert_eq!(id.plugin(), Some("standalone"));
    assert_eq!(id.parse(), None);
}

#[test]
fn separators_match_left_to_right_without_overlap() {
    // ":::" holds one separator, then a lone ':' that belongs to the next part.
    let id: ResourceId = "p::panel:::n".into();
    assert_eq!(id.parse(), Some((ResourceType::Panel, "p", ":n")));
    // A plugin name ending with ':' moves the first separator.
    let id = ResourceId::panel("a:", "b");
    assert_eq!(id.as_str(), "a:::panel::b");
    assert_eq!(id.parse(), None);
    assert_eq!(id.plugin(), Some("a"));
}

#[test]
fn empty_parts_are_kept() {
    let id = ResourceId::tool("", "");
    assert_eq!(id.as_str(), "::tool::");
    assert_eq!(id.parse(), Some((ResourceType::Tool, "", "")));
    assert_eq!(id.plugin(), Some(""));
}

#[test]
fn non_ascii_names_round_trip() {
    let id = ResourceId::workspace("плагін", "мови");
    assert_eq!(id.parse(), Some((ResourceType::Workspace, "плагін", "мови")));
}

#[test]
fn ids_compare_by_text() {
    let a = ResourceId::panel("core", "x");
    let b: ResourceId = "core::panel::x".into();
    assert!(a == b);
    assert!(a.same_as(&b));
    assert!(a != ResourceId::tool("core", "x"));
    assert_eq!(a.duplicate().as_str(), "core::panel::x");
}
