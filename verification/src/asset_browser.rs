use vstd::multiset::Multiset;
use vstd::prelude::*;

verus! {

/// Kind of asset file.
#[derive(Clone, Copy, Debug, PartialEq, Eq, Structural)]
pub enum AssetItem {
    Scene,
    Config,
    Tilemap,
    Image,
    Unknown,
}

/// What an entry of the asset browser stands for.
#[derive(Clone, Copy, Debug, PartialEq, Eq, Structural)]
pub enum ItemType {
    Folder,
    File(AssetItem),
    MoveUp,
}

/// An entry of the asset browser: where it leads, its file name as bytes
/// (absent for a path without one), and what it is.
pub struct Item<P> {
    pub path: P,
    pub name: Option<Vec<u8>>,
    pub item_type: ItemType,
}

/// Place of each kind of entry: the way up first, then folders, then files.
pub open spec fn kind_rank(t: ItemType) -> int {
    match t {
        ItemType::MoveUp => 0,
        ItemType::Folder => 1,
        ItemType::File(_) => 2,
    }
}

/// `a` comes before `b` byte by byte (a proper prefix comes first).
pub open spec fn bytes_lt(a: Seq<u8>, b: Seq<u8>) -> bool
    decreases a.len(),
{
    if a.len() == 0 {
        b.len() > 0
    } else if b.len() == 0 {
        false
    } else if a[0] != b[0] {
        a[0] < b[0]
    } else {
        bytes_lt(a.drop_first(), b.drop_first())
    }
}

pub open spec fn name_bytes(n: Option<Vec<u8>>) -> Option<Seq<u8>> {
    match n {
        Some(v) => Some(v@),
        None => None,
    }
}

/// Order of file names: a missing name first, then names byte by byte.
pub open spec fn name_lt(a: Option<Seq<u8>>, b: Option<Seq<u8>>) -> bool {
    match (a, b) {
        (None, Some(_)) => true,
        (Some(x), Some(y)) => bytes_lt(x, y),
        _ => false,
    }
}

/// Entry `a` is listed before entry `b`: the way up before folders, folders
/// before files, and folders among themselves and files among themselves by name.
pub open spec fn goes_before<P>(a: Item<P>, b: Item<P>) -> bool {
    kind_rank(a.item_type) < kind_rank(b.item_type) || (kind_rank(a.item_type) == kind_rank(
        b.item_type,
    ) && kind_rank(a.item_type) != 0 && name_lt(name_bytes(a.name), name_bytes(b.name)))
}

/// No entry of `s` should be listed before an entry ahead of it.
pub open spec fn browser_sorted<P>(s: Seq<Item<P>>) -> bool {
    forall|i: int, j: int| 0 <= i < j < s.len() ==> !goes_before(#[trigger] s[j], #[trigger] s[i])
}

proof fn lemma_bytes_lt_asym(a: Seq<u8>, b: Seq<u8>)
    ensures
        !(bytes_lt(a, b) && bytes_lt(b, a)),
    decreases a.len(),
{
    if a.len() > 0 && b.len() > 0 && a[0] == b[0] {
        lemma_bytes_lt_asym(a.drop_first(), b.drop_first());
    }
}

proof fn lemma_bytes_lt_trans(a: Seq<u8>, b: Seq<u8>, c: Seq<u8>)
    requires
        bytes_lt(a, b),
        bytes_lt(b, c),
    ensures
        bytes_lt(a, c),
    decreases a.len(),
{
    if a.len() > 0 && b.len() > 0 && c.len() > 0 && a[0] == b[0] && b[0] == c[0] {
        lemma_bytes_lt_trans(a.drop_first(), b.drop_first(), c.drop_first());
    }
}

proof fn lemma_goes_before_order<P>(a: Item<P>, b: Item<P>, c: Item<P>)
    ensures
        !(goes_before(a, b) && goes_before(b, a)),
        goes_before(a, b) && goes_before(b, c) ==> goes_before(a, c),
{
    let (na, nb, nc) = (name_bytes(a.name), name_bytes(b.name), name_bytes(c.name));
    if na is Some && nb is Some {
        lemma_bytes_lt_asym(na.unwrap(), nb.unwrap());
    }
    if goes_before(a, b) && goes_before(b, c) && na is Some && nb is Some && nc is Some && bytes_lt(
        na.unwrap(),
        nb.unwrap(),
    ) && bytes_lt(nb.unwrap(), nc.unwrap()) {
        lemma_bytes_lt_trans(na.unwrap(), nb.unwrap(), nc.unwrap());
    }
}

proof fn lemma_bytes_lt_total(a: Seq<u8>, b: Seq<u8>)
    requires
        !bytes_lt(a, b),
        !bytes_lt(b, a),
    ensures
        a == b,
    decreases a.len(),
{
    if a.len() > 0 && b.len() > 0 {
        lemma_bytes_lt_total(a.drop_first(), b.drop_first());
        assert(a =~= seq![a[0]] + a.drop_first());
        assert(b =~= seq![b[0]] + b.drop_first());
    }
}

/// Neither entry is listed before the other.
pub open spec fn same_place<P>(a: Item<P>, b: Item<P>) -> bool {
    !goes_before(a, b) && !goes_before(b, a)
}

proof fn lemma_same_place_compat<P>(x: Item<P>, y: Item<P>, z: Item<P>)
    requires
        same_place(x, y),
        goes_before(x, z),
    ensures
        goes_before(y, z),
{
    let (nx, ny) = (name_bytes(x.name), name_bytes(y.name));
    if nx is Some && ny is Some {
        if !bytes_lt(nx.unwrap(), ny.unwrap()) && !bytes_lt(ny.unwrap(), nx.unwrap()) {
            lemma_bytes_lt_total(nx.unwrap(), ny.unwrap());
        }
    }
}

/// `r` is `s` reordered: position `k` of `r` holds entry `perm[k]` of `s`,
/// no entry of `s` twice, and entries that neither goes before the other
/// keep the order they had in `s`.
pub open spec fn is_stable_reordering<P>(s: Seq<Item<P>>, r: Seq<Item<P>>, perm: Seq<int>) -> bool {
    &&& perm.len() == s.len()
    &&& r.len() == s.len()
    &&& forall|k: int| 0 <= k < perm.len() ==> 0 <= #[trigger] perm[k] < s.len() && r[k] == s[perm[k]]
    &&& forall|k: int, l: int| 0 <= k < l < perm.len() ==> #[trigger] perm[k] != #[trigger] perm[l]
    &&& forall|k: int, l: int|
        #![trigger perm[k], perm[l]]
        0 <= k < l < perm.len() && same_place(r[k], r[l]) ==> perm[k] < perm[l]
}

fn bytes_before(a: &Vec<u8>, b: &Vec<u8>) -> (r: bool)
    ensures
        r == bytes_lt(a@, b@),
{
    let mut i: usize = 0;
    assert(a@.skip(0) =~= a@);
    assert(b@.skip(0) =~= b@);
    while i < a.len() && i < b.len()
        invariant
            i <= a@.len(),
            i <= b@.len(),
            bytes_lt(a@, b@) == bytes_lt(a@.skip(i as int), b@.skip(i as int)),
        decreases a@.len() - i,
    {
        if a[i] != b[i] {
            return a[i] < b[i];
        }
        assert(a@.skip(i as int).drop_first() =~= a@.skip(i + 1));
        assert(b@.skip(i as int).drop_first() =~= b@.skip(i + 1));
        i = i + 1;
    }
    i == a.len() && i < b.len()
}

fn rank_of(t: ItemType) -> (r: u8)
    ensures
        r == kind_rank(t),
{
    match t {
        ItemType::MoveUp => 0,
        ItemType::Folder => 1,
        ItemType::File(_) => 2,
    }
}

/// Whether entry `a` is listed before entry `b`.
pub fn lists_before<P>(a: &Item<P>, b: &Item<P>) -> (r: bool)
    ensures
        r == goes_before(*a, *b),
{
    let ra = rank_of(a.item_type);
    let rb = rank_of(b.item_type);
    if ra != rb {
        return ra < rb;
    }
    if ra == 0 {
        return false;
    }
    match (&a.name, &b.name) {
        (None, Some(_)) => true,
        (Some(x), Some(y)) => bytes_before(x, y),
        _ => false,
    }
}

/// Orders the entries of the asset browser: the way up first, then folders,
/// then files, each group by name; entries that compare equal keep their order.
pub fn sort_items<P>(items: Vec<Item<P>>) -> (r: Vec<Item<P>>)
    ensures
        browser_sorted(r@),
        r@.to_multiset() == items@.to_multiset(),
        exists|perm: Seq<int>| is_stable_reordering(items@, r@, perm),
{
    broadcast use vstd::seq_lib::group_to_multiset_ensures, vstd::multiset::group_multiset_axioms;

    let mut rest = items;
    let mut out: Vec<Item<P>> = Vec::new();
    let ghost all = rest@;
    let ghost mut perm: Seq<int> = Seq::empty();
    assert(all.skip(0) =~= all);
    while rest.len() > 0
        invariant
            browser_sorted(out@),
            out@.to_multiset().add(rest@.to_multiset()) == all.to_multiset(),
            rest@.len() <= all.len(),
            rest@ == all.skip(all.len() - rest@.len()),
            perm.len() == out@.len(),
            out@.len() == all.len() - rest@.len(),
            forall|k: int|
                0 <= k < perm.len() ==> 0 <= #[trigger] perm[k] < out@.len() && out@[k] == all[perm[k]],
            forall|k: int, l: int| 0 <= k < l < perm.len() ==> #[trigger] perm[k] != #[trigger] perm[l],
            forall|k: int, l: int|
                #![trigger perm[k], perm[l]]
                0 <= k < l < perm.len() && same_place(out@[k], out@[l]) ==> perm[k] < perm[l],
        decreases rest@.len(),
    {
        let ghost before_rest = rest@;
        let ghost taken = all.len() - rest@.len();
        let x = rest.remove(0);
        assert(all.skip(taken)[0] == all[taken]);
        assert(rest@ =~= all.skip(taken + 1));
        proof {
            vstd::seq_lib::to_multiset_remove(before_rest, 0);
            assert(before_rest.remove(0) =~= rest@);
            assert(before_rest.to_multiset().count(x) > 0) by {
                assert(before_rest[0] == x);
                assert(before_rest.contains(x));
                vstd::seq_lib::to_multiset_contains(before_rest, x);
            }
        }
        let mut p: usize = 0;
        while p < out.len() && !lists_before(&x, &out[p])
            invariant
                p <= out@.len(),
                forall|i: int| 0 <= i < p ==> !goes_before(x, #[trigger] out@[i]),
            decreases out@.len() - p,
        {
            p = p + 1;
        }
        let ghost before_out = out@;
        out.insert(p, x);
        proof {
            vstd::seq_lib::to_multiset_insert(before_out, p as int, x);
            assert forall|i: int, j: int| 0 <= i < j < out@.len() implies !goes_before(
                #[trigger] out@[j],
                #[trigger] out@[i],
            ) by {
                if j == p {
                    assert(out@[i] == before_out[i]);
                } else if i == p {
                    let bj = before_out[j - 1];
                    assert(out@[j] == bj);
                    assert(goes_before(x, before_out[p as int]));
                    lemma_goes_before_order(bj, x, before_out[p as int]);
                    if j - 1 > p {
                        assert(!goes_before(before_out[j - 1], before_out[p as int]));
                    }
                } else {
                    let ii = if i < p { i } else { i - 1 };
                    let jj = if j < p { j } else { j - 1 };
                    assert(out@[i] == before_out[ii]);
                    assert(out@[j] == before_out[jj]);
                }
            }
            assert(out@.to_multiset().add(rest@.to_multiset()) =~= all.to_multiset());
            let new_perm = perm.insert(p as int, taken);
            assert forall|k: int| 0 <= k < new_perm.len() implies 0 <= #[trigger] new_perm[k] < out@.len()
                && out@[k] == all[new_perm[k]] by {
                if k < p {
                    assert(new_perm[k] == perm[k]);
                    assert(out@[k] == before_out[k]);
                } else if k > p {
                    assert(new_perm[k] == perm[k - 1]);
                    assert(out@[k] == before_out[k - 1]);
                }
            }
            assert forall|k: int, l: int| 0 <= k < l < new_perm.len() implies #[trigger] new_perm[k]
                != #[trigger] new_perm[l] by {
                let kk = if k < p { k } else { k - 1 };
                let ll = if l < p { l } else { l - 1 };
                if k != p && l != p {
                    assert(new_perm[k] == perm[kk]);
                    assert(new_perm[l] == perm[ll]);
                } else if k == p {
                    assert(new_perm[l] == perm[ll]);
                } else {
                    assert(new_perm[k] == perm[kk]);
                }
            }
            assert forall|k: int, l: int|
                #![trigger new_perm[k], new_perm[l]]
                0 <= k < l < new_perm.len() && same_place(out@[k], out@[l]) implies new_perm[k]
                < new_perm[l] by {
                let kk = if k < p { k } else { k - 1 };
                let ll = if l < p { l } else { l - 1 };
                if k != p && l != p {
                    assert(new_perm[k] == perm[kk]);
                    assert(new_perm[l] == perm[ll]);
                    assert(out@[k] == before_out[kk]);
                    assert(out@[l] == before_out[ll]);
                    assert(perm[kk] < perm[ll]);
                } else if k == p {
                    assert(new_perm[l] == perm[ll]);
                    assert(out@[l] == before_out[ll]);
                    assert(goes_before(x, before_out[p as int]));
                    if ll > p {
                        assert(!goes_before(before_out[ll], before_out[p as int]));
                    }
                    lemma_same_place_compat(x, before_out[ll], before_out[p as int]);
                } else {
                    assert(new_perm[k] == perm[kk]);
                }
            }
            perm = new_perm;
        }
    }
    proof {
        assert(all.len() - rest@.len() == all.len());
        assert(is_stable_reordering(all, out@, perm));
        assert(rest@.to_multiset() =~= Multiset::empty());
        assert(out@.to_multiset().add(Multiset::empty()) =~= out@.to_multiset());
    }
    out
}

/// The entry that a directory listing's entry becomes: a folder for a
/// directory, otherwise a file of unknown kind.
pub open spec fn entry_item<P>(e: (P, Option<Vec<u8>>, bool)) -> Item<P> {
    Item {
        path: e.0,
        name: e.1,
        item_type: if e.2 {
            ItemType::Folder
        } else {
            ItemType::File(AssetItem::Unknown)
        },
    }
}

/// The entries for a directory before ordering: the way up to `parent` when
/// there is one, then each listed entry.
pub open spec fn listed_items<P>(
    parent: Option<(P, Option<Vec<u8>>)>,
    entries: Seq<(P, Option<Vec<u8>>, bool)>,
) -> Seq<Item<P>> {
    let head = match parent {
        Some(up) => seq![Item { path: up.0, name: up.1, item_type: ItemType::MoveUp }],
        None => Seq::empty(),
    };
    head + entries.map_values(|e: (P, Option<Vec<u8>>, bool)| entry_item(e))
}

/// Law: before ordering, the browser holds the way up (when offered) and then
/// one entry per listed entry, in listing order, each with that entry's path
/// and file name, a folder exactly when the entry is a directory and otherwise
/// a file of unknown kind.
pub proof fn law_listed_entries_keep_path_and_name<P>(
    up: Option<(P, Option<Vec<u8>>)>,
    entries: Seq<(P, Option<Vec<u8>>, bool)>,
)
    ensures
        ({
            let l = listed_items(up, entries);
            let h: int = if up is Some { 1 } else { 0 };
            &&& l.len() == h + entries.len()
            &&& up matches Some(u) ==> l[0].path == u.0 && l[0].name == u.1 && l[0].item_type
                == ItemType::MoveUp
            &&& forall|k: int|
                #![trigger entries[k]]
                0 <= k < entries.len() ==> {
                    &&& l[h + k].path == entries[k].0
                    &&& l[h + k].name == entries[k].1
                    &&& (l[h + k].item_type == ItemType::Folder <==> entries[k].2)
                    &&& !entries[k].2 ==> l[h + k].item_type == ItemType::File(AssetItem::Unknown)
                }
        }),
{
}

/// `it` is the way up to `parent`, offered below the project's root: it
/// leads to the parent with the parent's name.
pub open spec fn is_way_up_to<P>(it: Item<P>, at_root: bool, parent: Option<(P, Option<Vec<u8>>)>) -> bool {
    &&& it.item_type == ItemType::MoveUp
    &&& !at_root
    &&& match parent {
        Some(u) => it.path == u.0 && it.name == u.1,
        None => false,
    }
}

/// `it` stands for one of the listed entries: it has that entry's path and
/// file name, and is a folder exactly when the entry is a directory.
pub open spec fn comes_from_entry<P>(it: Item<P>, entries: Seq<(P, Option<Vec<u8>>, bool)>) -> bool {
    exists|j: int|
        0 <= j < entries.len() && it.path == (#[trigger] entries[j]).0 && it.name == entries[j].1 && (
        it.item_type == ItemType::Folder <==> entries[j].2)
}

/// The way up the asset browser offers: the directory's parent, unless the
/// directory is the project's root.
pub open spec fn way_up<P>(at_root: bool, parent: Option<(P, Option<Vec<u8>>)>) -> Option<(P, Option<Vec<u8>>)> {
    if at_root {
        None
    } else {
        parent
    }
}

/// The entries the asset browser shows for a directory: the way up to its
/// `parent` when there is one and the directory is not the project's root
/// (`at_root`), then each listed entry (path, file name, whether it is a
/// directory), all in browser order, entries in the same place keeping the
/// order of the listing.
pub fn browser_items<P>(
    at_root: bool,
    parent: Option<(P, Option<Vec<u8>>)>,
    entries: Vec<(P, Option<Vec<u8>>, bool)>,
) -> (r: Vec<Item<P>>)
    ensures
        browser_sorted(r@),
        r@.to_multiset() == listed_items(way_up(at_root, parent), entries@).to_multiset(),
        exists|perm: Seq<int>|
            #[trigger] is_stable_reordering(listed_items(way_up(at_root, parent), entries@), r@, perm),
        forall|k: int|
            0 <= k < r@.len() ==> is_way_up_to(#[trigger] r@[k], at_root, parent) || comes_from_entry(
                r@[k],
                entries@,
            ),
{
    let up = if at_root {
        None
    } else {
        parent
    };
    let mut items: Vec<Item<P>> = Vec::new();
    match up {
        Some(up) => {
            let (path, name) = up;
            items.push(Item { path, name, item_type: ItemType::MoveUp });
        },
        None => {},
    }
    let ghost head = items@;
    let ghost es = entries@;
    let mut rest = entries;
    let ghost n = es.len();
    while rest.len() > 0
        invariant
            n == es.len(),
            rest@.len() <= n,
            rest@ == es.skip(n - rest@.len()),
            items@ == head + es.take(n - rest@.len()).map_values(
                |e: (P, Option<Vec<u8>>, bool)| entry_item(e),
            ),
        decreases rest@.len(),
    {
        let ghost done = n - rest@.len();
        let e = rest.remove(0);
        assert(es.skip(done)[0] == es[done]);
        assert(rest@ =~= es.skip(done + 1));
        let (path, name, is_dir) = e;
        let item_type = if is_dir {
            ItemType::Folder
        } else {
            ItemType::File(AssetItem::Unknown)
        };
        items.push(Item { path, name, item_type });
        assert(es.take(done + 1).map_values(|e: (P, Option<Vec<u8>>, bool)| entry_item(e))
            =~= es.take(done).map_values(|e: (P, Option<Vec<u8>>, bool)| entry_item(e)).push(
            entry_item(es[done]),
        ));
        assert(items@ =~= head + es.take(done + 1).map_values(
            |e: (P, Option<Vec<u8>>, bool)| entry_item(e),
        ));
    }
    assert(es.take(n as int) =~= es);
    let ghost listed = listed_items(way_up(at_root, parent), es);
    assert(items@ == listed);
    let r = sort_items(items);
    proof {
        let perm = choose|perm: Seq<int>| is_stable_reordering(listed, r@, perm);
        let h: int = if way_up(at_root, parent) is Some { 1 } else { 0 };
        assert forall|k: int| 0 <= k < r@.len() implies is_way_up_to(#[trigger] r@[k], at_root, parent)
            || comes_from_entry(r@[k], es) by {
            let m = perm[k];
            assert(r@[k] == listed[m]);
            if m >= h {
                let j = m - h;
                assert(listed[m] == entry_item(es[j]));
            }
        }
    }
    r
}

} // verus!
