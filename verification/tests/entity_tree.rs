use beditor::entity_tree::{
    build_tree, entity_tree, get_mock_entities, toggle_selection, EntityInfo, EntityKind, Filter, TreeItem,
};

fn e(id: u32, name: &str, parent: Option<u32>, kind: EntityKind) -> EntityInfo {
    EntityInfo { id, name: name.to_string(), parent, kind }
}

fn shape(items: &[TreeItem]) -> String {
    items
        .iter()
        .map(|t| {
            if t.children.is_empty() {
                format!("{}:{}", t.id, t.label)
            } else {
                format!("{}:{}[{}]", t.id, t.label, shape(&t.children))
            }
        })
        .collect::<Vec<_>>()
        .join(",")
}

fn sample() -> Vec<EntityInfo> {
    vec![
        e(3, "Camera", Some(2), EntityKind::Entity),
        e(1, "Root", None, EntityKind::Entity),
        e(7, "Time", None, EntityKind::Resource),
        e(2, "Player", Some(1), EntityKind::Entity),
        e(4, "Light", None, EntityKind::Entity),
        e(5, "Mesh", Some(2), EntityKind::Entity),
        e(8, "Assets", None, EntityKind::Resource),
    ]
}

#[test]
fn tree_follows_parent_links_in_listing_order() {
    let tree = build_tree(&sample());
    assert_eq!(shape(&tree), "1:Root[2:Player[3:Camera,5:Mesh]],7:Time,4:Light,8:Assets");
    assert!(build_tree(&vec![]).is_empty());
}

#[test]
fn browser_filters_entities_and_resources() {
    let entities = entity_tree(&sample(), Filter::Entities);
    assert_eq!(shape(&entities), "1:Root[2:Player[3:Camera,5:Mesh]],4:Light");
    let resources = entity_tree(&sample(), Filter::Resources);
    assert_eq!(shape(&resources), "7:Time,8:Assets");
}

#[test]
fn orphans_are_not_shown() {
    let tree = build_tree(&vec![e(9, "Lost", Some(42), EntityKind::Entity), e(1, "Root", None, EntityKind::Entity)]);
    assert_eq!(shape(&tree), "1:Root");
}

#[test]
fn clicking_toggles_the_selection() {
    assert_eq!(toggle_selection(None, 3), Some(3));
    assert_eq!(toggle_selection(Some(3), 3), None);
    assert_eq!(toggle_selection(Some(2), 3), Some(3));
}

#[test]
fn mock_scene_tree() {
    assert_eq!(
        shape(&get_mock_entities()),
        "1:Scene Root[2:Player[3:Camera,4:PlayerMesh],5:Environment[6:Terrain,7:Props[8:Crate_01,9:Crate_02,10:Barrel],11:DirectionalLight],12:UI Canvas[13:HealthBar,14:Minimap]]"
    );
}
