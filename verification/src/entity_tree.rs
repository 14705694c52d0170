use vstd::prelude::*;
use vstd::string::*;

verus! {

/// Whether a reported item of the running game is an entity or a resource.
#[derive(Clone, Copy, Debug, PartialEq, Eq, Structural)]
pub enum EntityKind {
    Entity,
    Resource,
}

/// An item the running game reports: its id, name, parent entity and kind.
pub struct EntityInfo {
    pub id: u32,
    pub name: String,
    pub parent: Option<u32>,
    pub kind: EntityKind,
}

impl Clone for EntityInfo {
    fn clone(&self) -> (r: Self)
        ensures
            r == *self,
    {
        EntityInfo { id: self.id, name: self.name.clone(), parent: self.parent, kind: self.kind }
    }
}

/// A node of a displayed tree: an id, a label, and the nodes below it.
pub struct TreeItem {
    pub id: u32,
    pub label: String,
    pub children: Vec<TreeItem>,
}

/// Which items the entity browser lists.
#[derive(Clone, Copy, Debug, PartialEq, Eq, Structural)]
pub enum Filter {
    Entities,
    Resources,
}

/// A tree node as plain values.
pub struct TreeView {
    pub id: u32,
    pub label: Seq<char>,
    pub children: Seq<TreeView>,
}

/// `t` holds exactly the node `v`, down to its leaves.
pub open spec fn item_matches(t: TreeItem, v: TreeView) -> bool
    decreases v,
{
    &&& t.id == v.id
    &&& t.label@ == v.label
    &&& t.children@.len() == v.children.len()
    &&& forall|k: int|
        #![trigger t.children@[k]]
        0 <= k < v.children.len() ==> item_matches(t.children@[k], v.children[k])
}

/// `ts` holds exactly the nodes `vs`, in order.
pub open spec fn forest_matches(ts: Seq<TreeItem>, vs: Seq<TreeView>) -> bool {
    &&& ts.len() == vs.len()
    &&& forall|k: int| 0 <= k < ts.len() ==> item_matches(#[trigger] ts[k], vs[k])
}

/// The indices, among the first `n` items of `es`, of those whose parent is
/// `parent`, in order.
pub open spec fn child_indices(es: Seq<EntityInfo>, parent: Option<u32>, n: int) -> Seq<int>
    decreases n,
{
    if n <= 0 {
        Seq::empty()
    } else {
        let r = child_indices(es, parent, n - 1);
        if es[n - 1].parent == parent {
            r.push(n - 1)
        } else {
            r
        }
    }
}

/// The node for item `j` of `es`, with its descendants down to `depth` levels.
pub open spec fn node_of(es: Seq<EntityInfo>, j: int, depth: nat) -> TreeView
    decreases depth, 1nat,
{
    TreeView { id: es[j].id, label: es[j].name@, children: forest_of(es, Some(es[j].id), depth) }
}

/// The trees of the items of `es` whose parent is `parent`, in the order of
/// `es`, each holding the items whose parent it is, down to `depth` levels.
pub open spec fn forest_of(es: Seq<EntityInfo>, parent: Option<u32>, depth: nat) -> Seq<TreeView>
    decreases depth, 0nat,
{
    if depth == 0 {
        Seq::empty()
    } else {
        let kids = child_indices(es, parent, es.len() as int);
        Seq::new(kids.len(), |k: int| node_of(es, kids[k], (depth - 1) as nat))
    }
}

/// The items of `es` of kind `kind`, in order.
pub open spec fn of_kind(es: Seq<EntityInfo>, kind: EntityKind) -> Seq<EntityInfo>
    decreases es.len(),
{
    if es.len() == 0 {
        Seq::empty()
    } else {
        let r = of_kind(es.drop_last(), kind);
        if es.last().kind == kind {
            r.push(es.last())
        } else {
            r
        }
    }
}

/// One leaf per item of `es`, in order.
pub open spec fn flat_forest(es: Seq<EntityInfo>) -> Seq<TreeView> {
    Seq::new(es.len(), |k: int| TreeView { id: es[k].id, label: es[k].name@, children: Seq::empty() })
}

/// The trees below `parent`, `depth` levels deep.
fn build_children(es: &Vec<EntityInfo>, parent: Option<u32>, depth: usize) -> (r: Vec<TreeItem>)
    ensures
        forest_matches(r@, forest_of(es@, parent, depth as nat)),
    decreases depth,
{
    if depth == 0 {
        let r: Vec<TreeItem> = Vec::new();
        assert(forest_matches(r@, forest_of(es@, parent, depth as nat)));
        return r;
    }
    let ghost d = (depth - 1) as nat;
    let mut r: Vec<TreeItem> = Vec::new();
    let mut i: usize = 0;
    while i < es.len()
        invariant
            i <= es@.len(),
            d == depth - 1,
            depth > 0,
            r@.len() == child_indices(es@, parent, i as int).len(),
            forall|k: int|
                0 <= k < r@.len() ==> #[trigger] item_matches(
                    r@[k],
                    node_of(es@, child_indices(es@, parent, i as int)[k], d),
                ),
        decreases es@.len() - i,
    {
        let ghost before = child_indices(es@, parent, i as int);
        let e = &es[i];
        if e.parent == parent {
            let children = build_children(es, Some(e.id), depth - 1);
            let item = TreeItem { id: e.id, label: e.name.clone(), children };
            assert(item_matches(item, node_of(es@, i as int, d)));
            let ghost old_r = r@;
            r.push(item);
            assert(child_indices(es@, parent, i as int + 1) == before.push(i as int));
            assert forall|k: int|
                0 <= k < r@.len() implies #[trigger] item_matches(
                r@[k],
                node_of(es@, child_indices(es@, parent, i as int + 1)[k], d),
            ) by {
                if k < old_r.len() {
                    assert(r@[k] == old_r[k]);
                    assert(before.push(i as int)[k] == before[k]);
                }
            }
        } else {
            assert(child_indices(es@, parent, i as int + 1) == before);
        }
        i = i + 1;
    }
    let ghost f = forest_of(es@, parent, depth as nat);
    let ghost kids = child_indices(es@, parent, es@.len() as int);
    assert(f.len() == kids.len());
    assert(r@.len() == kids.len());
    assert(forest_matches(r@, f)) by {
        assert forall|k: int| 0 <= k < r@.len() implies #[trigger] item_matches(r@[k], f[k]) by {
            assert(f[k] == node_of(es@, child_indices(es@, parent, es@.len() as int)[k], d));
        }
    }
    r
}

/// The entity tree of `es`: the items without a parent, each above the items
/// whose parent it is, in the order of `es`, down to as many levels as `es`
/// has items. When ids are distinct that is the whole tree
/// (`law_tree_depth_suffices`). When repeated ids make an item its own
/// descendant, following the parent links never ends; this function then
/// returns the tree cut at that depth.
pub fn build_tree(es: &Vec<EntityInfo>) -> (r: Vec<TreeItem>)
    ensures
        forest_matches(r@, forest_of(es@, None, es@.len())),
{
    build_children(es, None, es.len())
}

/// The items of `es` of kind `kind`, in order.
fn items_of_kind(es: &Vec<EntityInfo>, kind: EntityKind) -> (r: Vec<EntityInfo>)
    ensures
        r@ == of_kind(es@, kind),
{
    let mut r: Vec<EntityInfo> = Vec::new();
    let mut i: usize = 0;
    while i < es.len()
        invariant
            i <= es@.len(),
            r@ == of_kind(es@.take(i as int), kind),
        decreases es@.len() - i,
    {
        let ghost next = es@.take(i as int + 1);
        assert(next.drop_last() =~= es@.take(i as int));
        assert(next.last() == es@[i as int]);
        if es[i].kind == kind {
            r.push(es[i].clone());
        }
        i = i + 1;
    }
    assert(es@.take(i as int) =~= es@);
    r
}

/// What the entity browser shows under `filter`: the tree of the entities,
/// or the resources as a flat list, in the order of `es`.
pub fn entity_tree(es: &Vec<EntityInfo>, filter: Filter) -> (r: Vec<TreeItem>)
    ensures
        filter == Filter::Entities ==> forest_matches(
            r@,
            forest_of(of_kind(es@, EntityKind::Entity), None, of_kind(es@, EntityKind::Entity).len()),
        ),
        filter == Filter::Resources ==> forest_matches(r@, flat_forest(of_kind(es@, EntityKind::Resource))),
{
    match filter {
        Filter::Entities => {
            let entities = items_of_kind(es, EntityKind::Entity);
            build_tree(&entities)
        },
        Filter::Resources => {
            let resources = items_of_kind(es, EntityKind::Resource);
            let ghost f = flat_forest(resources@);
            let mut r: Vec<TreeItem> = Vec::new();
            let mut i: usize = 0;
            while i < resources.len()
                invariant
                    i <= resources@.len(),
                    f == flat_forest(resources@),
                    r@.len() == i,
                    forall|k: int| 0 <= k < i ==> #[trigger] item_matches(r@[k], f[k]),
                decreases resources@.len() - i,
            {
                let item = TreeItem {
                    id: resources[i].id,
                    label: resources[i].name.clone(),
                    children: Vec::new(),
                };
                assert(forest_matches(item.children@, f[i as int].children));
                r.push(item);
                i = i + 1;
            }
            assert(r@.len() == f.len());
            assert(forall|k: int| 0 <= k < r@.len() ==> #[trigger] item_matches(r@[k], f[k]));
            assert(forest_matches(r@, f));
            r
        },
    }
}

/// The selection after clicking the node `id`: clicking the selected node
/// clears the selection, clicking another selects it.
pub fn toggle_selection(current: Option<u32>, id: u32) -> (r: Option<u32>)
    ensures
        r == (if current == Some(id) {
            None::<u32>
        } else {
            Some(id)
        }),
{
    match current {
        Some(c) => if c == id {
            None
        } else {
            Some(id)
        },
        None => Some(id),
    }
}

/// A node of the given id and label above `children`.
pub open spec fn tree_node(id: u32, label: Seq<char>, children: Seq<TreeView>) -> TreeView {
    TreeView { id, label, children }
}

/// A node of the given id and label with nothing below it.
pub open spec fn tree_leaf(id: u32, label: Seq<char>) -> TreeView {
    TreeView { id, label, children: Seq::empty() }
}

/// The sample scene shown while no game is connected: a scene root holding
/// the player (camera, mesh), the environment (terrain, props with two crates
/// and a barrel, a directional light) and the UI canvas (health bar, minimap).
pub open spec fn mock_tree() -> Seq<TreeView> {
    seq![
        tree_node(
            1,
            "Scene Root"@,
            seq![
                tree_node(2, "Player"@, seq![tree_leaf(3, "Camera"@), tree_leaf(4, "PlayerMesh"@)]),
                tree_node(
                    5,
                    "Environment"@,
                    seq![
                        tree_leaf(6, "Terrain"@),
                        tree_node(
                            7,
                            "Props"@,
                            seq![
                                tree_leaf(8, "Crate_01"@),
                                tree_leaf(9, "Crate_02"@),
                                tree_leaf(10, "Barrel"@),
                            ],
                        ),
                        tree_leaf(11, "DirectionalLight"@),
                    ],
                ),
                tree_node(12, "UI Canvas"@, seq![tree_leaf(13, "HealthBar"@), tree_leaf(14, "Minimap"@)]),
            ],
        ),
    ]
}

/// The node `id` labelled `label` above `children`.
fn make_node(id: u32, label: &str, children: Vec<TreeItem>, Ghost(vs): Ghost<Seq<TreeView>>) -> (r: TreeItem)
    requires
        forest_matches(children@, vs),
    ensures
        item_matches(r, tree_node(id, label@, vs)),
{
    TreeItem { id, label: String::from_str(label), children }
}

/// `v` with `item` appended.
fn push_item(v: &mut Vec<TreeItem>, Ghost(vs): Ghost<Seq<TreeView>>, item: TreeItem, Ghost(iv): Ghost<TreeView>)
    requires
        forest_matches(old(v)@, vs),
        item_matches(item, iv),
    ensures
        forest_matches(final(v)@, vs.push(iv)),
{
    v.push(item);
    assert forall|k: int| 0 <= k < v@.len() implies item_matches(#[trigger] v@[k], vs.push(iv)[k]) by {
        if k < vs.len() {
            assert(v@[k] == old(v)@[k]);
        }
    }
}

/// Nodes with nothing below them, one per `(id, label)`, in order.
fn leaves(items: &[(u32, &str)], Ghost(vs): Ghost<Seq<TreeView>>) -> (r: Vec<TreeItem>)
    requires
        vs.len() == items@.len(),
        forall|k: int| 0 <= k < vs.len() ==> #[trigger] vs[k] == tree_leaf(items@[k].0, items@[k].1@),
    ensures
        forest_matches(r@, vs),
{
    let mut r: Vec<TreeItem> = Vec::new();
    let mut i: usize = 0;
    while i < items.len()
        invariant
            i <= items@.len(),
            vs.len() == items@.len(),
            forall|k: int| 0 <= k < vs.len() ==> #[trigger] vs[k] == tree_leaf(items@[k].0, items@[k].1@),
            forest_matches(r@, vs.take(i as int)),
        decreases items@.len() - i,
    {
        let (id, label) = items[i];
        let leaf = make_node(id, label, Vec::new(), Ghost(Seq::empty()));
        assert(tree_node(id, label@, Seq::empty()) == vs[i as int]);
        push_item(&mut r, Ghost(vs.take(i as int)), leaf, Ghost(vs[i as int]));
        assert(vs.take(i as int).push(vs[i as int]) =~= vs.take(i as int + 1));
        i = i + 1;
    }
    assert(vs.take(i as int) =~= vs);
    r
}

/// The sample scene tree.
pub fn get_mock_entities() -> (r: Vec<TreeItem>)
    ensures
        forest_matches(r@, mock_tree()),
{
    let ghost player_kids = seq![tree_leaf(3, "Camera"@), tree_leaf(4, "PlayerMesh"@)];
    let player_items = leaves(&[(3, "Camera"), (4, "PlayerMesh")], Ghost(player_kids));
    let player = make_node(2, "Player", player_items, Ghost(player_kids));
    let ghost props_v = seq![tree_leaf(8, "Crate_01"@), tree_leaf(9, "Crate_02"@), tree_leaf(10, "Barrel"@)];
    let props_items = leaves(&[(8, "Crate_01"), (9, "Crate_02"), (10, "Barrel")], Ghost(props_v));
    let props = make_node(7, "Props", props_items, Ghost(props_v));
    let mut env_items: Vec<TreeItem> = Vec::new();
    let ghost terrain_v = tree_leaf(6, "Terrain"@);
    let terrain = make_node(6, "Terrain", Vec::new(), Ghost(Seq::empty()));
    push_item(&mut env_items, Ghost(Seq::empty()), terrain, Ghost(terrain_v));
    let ghost props_node = tree_node(7, "Props"@, props_v);
    let ghost env1 = seq![terrain_v];
    push_item(&mut env_items, Ghost(env1), props, Ghost(props_node));
    let light = make_node(11, "DirectionalLight", Vec::new(), Ghost(Seq::empty()));
    let ghost light_v = tree_leaf(11, "DirectionalLight"@);
    let ghost env2 = seq![terrain_v, props_node];
    push_item(&mut env_items, Ghost(env2), light, Ghost(light_v));
    let ghost env_v = seq![terrain_v, props_node, light_v];
    assert(seq![terrain_v].push(props_node).push(light_v) =~= env_v);
    let environment = make_node(5, "Environment", env_items, Ghost(env_v));
    let ghost ui_v = seq![tree_leaf(13, "HealthBar"@), tree_leaf(14, "Minimap"@)];
    let ui_items = leaves(&[(13, "HealthBar"), (14, "Minimap")], Ghost(ui_v));
    let canvas = make_node(12, "UI Canvas", ui_items, Ghost(ui_v));
    let ghost player_v = tree_node(2, "Player"@, player_kids);
    let ghost environment_v = tree_node(5, "Environment"@, env_v);
    let ghost canvas_v = tree_node(12, "UI Canvas"@, ui_v);
    let mut root_items: Vec<TreeItem> = Vec::new();
    push_item(&mut root_items, Ghost(Seq::empty()), player, Ghost(player_v));
    let ghost root1 = seq![player_v];
    push_item(&mut root_items, Ghost(root1), environment, Ghost(environment_v));
    let ghost root2 = seq![player_v, environment_v];
    push_item(&mut root_items, Ghost(root2), canvas, Ghost(canvas_v));
    let ghost root_children = seq![player_v, environment_v, canvas_v];
    assert(seq![player_v].push(environment_v).push(canvas_v) =~= root_children);
    let root = make_node(1, "Scene Root", root_items, Ghost(root_children));
    let mut r: Vec<TreeItem> = Vec::new();
    let ghost root_v = tree_node(1, "Scene Root"@, root_children);
    push_item(&mut r, Ghost(Seq::empty()), root, Ghost(root_v));
    assert(Seq::<TreeView>::empty().push(tree_node(1, "Scene Root"@, root_children)) =~= mock_tree());
    r
}

/// No two items of `es` share an id.
pub open spec fn ids_distinct(es: Seq<EntityInfo>) -> bool {
    forall|i: int, j: int| 0 <= i < j < es.len() ==> #[trigger] es[i].id != #[trigger] es[j].id
}

/// `chain` lists items of `es` from one without a parent down, each the
/// parent of the next, no item twice.
#[verifier::opaque]
spec fn is_chain(es: Seq<EntityInfo>, chain: Seq<int>) -> bool {
    &&& forall|t: int| 0 <= t < chain.len() ==> 0 <= #[trigger] chain[t] < es.len()
    &&& chain.no_duplicates()
    &&& chain.len() > 0 ==> es[chain[0]].parent is None
    &&& forall|t: int| 1 <= t < chain.len() ==> #[trigger] linked(es, chain, t)
}

/// Item `t` of `chain` is a child of item `t - 1`.
spec fn linked(es: Seq<EntityInfo>, chain: Seq<int>, t: int) -> bool {
    es[chain[t]].parent == Some(es[chain[t - 1]].id)
}

/// The parent whose children come after `chain`: its last item, or none.
spec fn chain_parent(es: Seq<EntityInfo>, chain: Seq<int>) -> Option<u32> {
    if chain.len() == 0 {
        None
    } else {
        Some(es[chain.last()].id)
    }
}

proof fn lemma_child_indices(es: Seq<EntityInfo>, parent: Option<u32>, n: int)
    requires
        n <= es.len(),
    ensures
        forall|k: int|
            0 <= k < child_indices(es, parent, n).len() ==> 0 <= #[trigger] child_indices(
                es,
                parent,
                n,
            )[k] < n && es[child_indices(es, parent, n)[k]].parent == parent,
    decreases n,
{
    if n > 0 {
        lemma_child_indices(es, parent, n - 1);
    }
}

proof fn lemma_distinct_in_range(s: Seq<int>, n: int)
    requires
        s.no_duplicates(),
        forall|t: int| 0 <= t < s.len() ==> 0 <= #[trigger] s[t] < n,
        n >= 0,
    ensures
        s.len() <= n,
{
    s.unique_seq_to_set();
    vstd::set_lib::lemma_int_range(0, n);
    assert(s.to_set().subset_of(vstd::set_lib::set_int_range(0, n)));
    vstd::set_lib::lemma_len_subset(s.to_set(), vstd::set_lib::set_int_range(0, n));
}

proof fn lemma_same_id(es: Seq<EntityInfo>, a: int, b: int)
    requires
        ids_distinct(es),
        0 <= a < es.len(),
        0 <= b < es.len(),
        es[a].id == es[b].id,
    ensures
        a == b,
{
    if a < b {
        assert(es[a].id != es[b].id);
    } else if b < a {
        assert(es[b].id != es[a].id);
    }
}

proof fn lemma_not_in_chain(es: Seq<EntityInfo>, chain: Seq<int>, j: int)
    requires
        ids_distinct(es),
        is_chain(es, chain),
        0 <= j < es.len(),
        es[j].parent == chain_parent(es, chain),
    ensures
        forall|t: int| 0 <= t < chain.len() ==> #[trigger] chain[t] != j,
{
    reveal(is_chain);
    let c = chain.len();
    assert forall|t: int| 0 <= t < c implies #[trigger] chain[t] != j by {
        if chain[t] == j && t > 0 {
            assert(linked(es, chain, t));
            lemma_same_id(es, chain[t - 1], chain[c - 1]);
            assert(chain[t - 1] == chain[c - 1]);
        }
    }
}

proof fn lemma_chain_extends(es: Seq<EntityInfo>, chain: Seq<int>, j: int)
    requires
        ids_distinct(es),
        is_chain(es, chain),
        0 <= j < es.len(),
        es[j].parent == chain_parent(es, chain),
    ensures
        is_chain(es, chain.push(j)),
        chain.len() + 1 <= es.len(),
        chain_parent(es, chain.push(j)) == Some(es[j].id),
{
    lemma_not_in_chain(es, chain, j);
    reveal(is_chain);
    let c = chain.len();
    let nc = chain.push(j);
    assert(nc.no_duplicates()) by {
        assert forall|x: int, y: int| 0 <= x < nc.len() && 0 <= y < nc.len() && x != y implies nc[x]
            != nc[y] by {
            if x < c && y < c {
                assert(chain[x] != chain[y]);
            } else if x < c {
                assert(chain[x] != j);
            } else if y < c {
                assert(chain[y] != j);
            }
        }
    }
    assert forall|t: int| 1 <= t < nc.len() implies #[trigger] linked(es, nc, t) by {
        if t < c {
            assert(linked(es, chain, t));
            assert(nc[t] == chain[t]);
            assert(nc[t - 1] == chain[t - 1]);
        }
    }
    assert forall|t: int| 0 <= t < nc.len() implies 0 <= #[trigger] nc[t] < es.len() by {
        if t < c {
            assert(nc[t] == chain[t]);
        }
    }
    lemma_distinct_in_range(nc, es.len() as int);
}

proof fn lemma_depth_suffices(es: Seq<EntityInfo>, chain: Seq<int>, a: nat, b: nat)
    requires
        ids_distinct(es),
        is_chain(es, chain),
        a >= es.len() - chain.len(),
        b >= es.len() - chain.len(),
    ensures
        forest_of(es, chain_parent(es, chain), a) == forest_of(es, chain_parent(es, chain), b),
    decreases es.len() - chain.len(),
{
    let p = chain_parent(es, chain);
    let kids = child_indices(es, p, es.len() as int);
    lemma_child_indices(es, p, es.len() as int);
    if kids.len() == 0 {
        assert(forest_of(es, p, a) =~= forest_of(es, p, b));
    } else {
        lemma_chain_extends(es, chain, kids[0]);
        assert forall|k: int| 0 <= k < kids.len() implies node_of(es, kids[k], (a - 1) as nat)
            == node_of(es, kids[k], (b - 1) as nat) by {
            lemma_chain_extends(es, chain, kids[k]);
            lemma_depth_suffices(es, chain.push(kids[k]), (a - 1) as nat, (b - 1) as nat);
        }
        assert(forest_of(es, p, a) =~= forest_of(es, p, b));
    }
}

/// Law: when no two items share an id, looking deeper than there are items
/// changes nothing: the tree `build_tree` returns is the whole tree that
/// following the parent links gives.
pub proof fn law_tree_depth_suffices(es: Seq<EntityInfo>, deeper: nat)
    requires
        ids_distinct(es),
    ensures
        forest_of(es, None, es.len()) == forest_of(es, None, es.len() + deeper),
{
    let chain = Seq::<int>::empty();
    assert(is_chain(es, chain)) by {
        reveal(is_chain);
    }
    lemma_depth_suffices(es, chain, es.len(), es.len() + deeper);
}

} // verus!
