use vstd::prelude::*;

verus! {

/// A menu of the menu bar: its label and its items.
pub struct MenuBarGroupConfig<T> {
    pub label: String,
    pub items: Vec<T>,
}

/// What a menu is: its label text and its items.
pub struct GroupView<T> {
    pub label: Seq<char>,
    pub items: Seq<T>,
}

pub open spec fn group_view<T>(g: MenuBarGroupConfig<T>) -> GroupView<T> {
    GroupView { label: g.label@, items: g.items@ }
}

pub open spec fn group_views<T>(gs: Seq<MenuBarGroupConfig<T>>) -> Seq<GroupView<T>> {
    gs.map_values(|g: MenuBarGroupConfig<T>| group_view(g))
}

/// Some menu of `gs` is labelled `l`.
pub open spec fn has_label<T>(gs: Seq<GroupView<T>>, l: Seq<char>) -> bool {
    exists|i: int| 0 <= i < gs.len() && (#[trigger] gs[i]).label == l
}

/// `acc` after menu `g` joins it: its items are appended to the menu with
/// the same label, or it is added at the end when there is none.
pub open spec fn merge_step<T>(acc: Seq<GroupView<T>>, g: GroupView<T>) -> Seq<GroupView<T>> {
    if exists|i: int| 0 <= i < acc.len() && acc[i].label == g.label {
        let i = choose|i: int| 0 <= i < acc.len() && acc[i].label == g.label;
        acc.update(i, GroupView { label: acc[i].label, items: acc[i].items + g.items })
    } else {
        acc.push(g)
    }
}

/// The menus `gs` joined in order.
pub open spec fn merged_groups<T>(gs: Seq<GroupView<T>>) -> Seq<GroupView<T>>
    decreases gs.len(),
{
    if gs.len() == 0 {
        Seq::empty()
    } else {
        merge_step(merged_groups(gs.drop_last()), gs.last())
    }
}

/// The items of all menus of `gs` labelled `label`, in order.
pub open spec fn items_with_label<T>(gs: Seq<GroupView<T>>, label: Seq<char>) -> Seq<T>
    decreases gs.len(),
{
    if gs.len() == 0 {
        Seq::empty()
    } else {
        items_with_label(gs.drop_last(), label) + if gs.last().label == label {
            gs.last().items
        } else {
            Seq::empty()
        }
    }
}

/// Law: joining menus gives one menu per label that occurs, each label once,
/// holding, in order, the items of every menu with that label.
pub proof fn law_merged_groups<T>(gs: Seq<GroupView<T>>)
    ensures
        forall|i: int, j: int|
            0 <= i < merged_groups(gs).len() && 0 <= j < merged_groups(gs).len() && i != j
                ==> #[trigger] merged_groups(gs)[i].label != #[trigger] merged_groups(gs)[j].label,
        forall|l: Seq<char>| #[trigger] has_label(merged_groups(gs), l) <==> has_label(gs, l),
        forall|i: int|
            0 <= i < merged_groups(gs).len() ==> (#[trigger] merged_groups(gs)[i]).items
                == items_with_label(gs, merged_groups(gs)[i].label),
    decreases gs.len(),
{
    if gs.len() > 0 {
        let d = gs.drop_last();
        let g = gs.last();
        let acc = merged_groups(d);
        law_merged_groups(d);
        let r = merged_groups(gs);
        assert(r == merge_step(acc, g));
        assert forall|l: Seq<char>| #[trigger] has_label(gs, l) <==> (has_label(d, l) || g.label == l) by {
            if has_label(gs, l) {
                let j = choose|j: int| 0 <= j < gs.len() && (#[trigger] gs[j]).label == l;
                if j < d.len() {
                    assert(d[j].label == l);
                }
            }
            if has_label(d, l) {
                let j = choose|j: int| 0 <= j < d.len() && (#[trigger] d[j]).label == l;
                assert(gs[j].label == l);
            }
            if g.label == l {
                assert(gs[gs.len() - 1].label == l);
            }
        }
        if exists|i: int| 0 <= i < acc.len() && acc[i].label == g.label {
            let k = choose|i: int| 0 <= i < acc.len() && acc[i].label == g.label;
            assert(has_label(acc, g.label));
            assert(has_label(d, g.label));
            assert forall|i: int| 0 <= i < r.len() implies (#[trigger] r[i]).items
                == items_with_label(gs, r[i].label) by {
                if i == k {
                } else {
                    assert(r[i] == acc[i]);
                    assert(acc[i].label != acc[k].label);
                }
            }
            assert forall|l: Seq<char>| #[trigger] has_label(r, l) <==> has_label(acc, l) by {
                if has_label(r, l) {
                    let i = choose|i: int| 0 <= i < r.len() && (#[trigger] r[i]).label == l;
                    assert(acc[i].label == l);
                }
                if has_label(acc, l) {
                    let i = choose|i: int| 0 <= i < acc.len() && (#[trigger] acc[i]).label == l;
                    assert(r[i].label == l);
                }
            }
        } else {
            assert forall|i: int| 0 <= i < r.len() implies (#[trigger] r[i]).items
                == items_with_label(gs, r[i].label) by {
                if i == acc.len() {
                    assert(items_with_label(d, g.label) =~= Seq::<T>::empty()) by {
                        assert(!has_label(acc, g.label));
                        assert(!has_label(d, g.label));
                        assert forall|j: int| 0 <= j < d.len() implies d[j].label != g.label by {
                            if d[j].label == g.label {
                                assert(has_label(d, g.label));
                            }
                        }
                        lemma_items_absent_label(d, g.label);
                    }
                } else {
                    assert(r[i] == acc[i]);
                    assert(acc[i].label != g.label);
                }
            }
            assert forall|l: Seq<char>| #[trigger] has_label(r, l) <==> (has_label(acc, l) || g.label == l) by {
                if has_label(r, l) {
                    let i = choose|i: int| 0 <= i < r.len() && (#[trigger] r[i]).label == l;
                    if i < acc.len() {
                        assert(acc[i].label == l);
                    }
                }
                if has_label(acc, l) {
                    let i = choose|i: int| 0 <= i < acc.len() && (#[trigger] acc[i]).label == l;
                    assert(r[i].label == l);
                }
                if g.label == l {
                    assert(r[acc.len() as int].label == l);
                }
            }
        }
    }
}

proof fn lemma_items_absent_label<T>(gs: Seq<GroupView<T>>, label: Seq<char>)
    requires
        forall|j: int| 0 <= j < gs.len() ==> gs[j].label != label,
    ensures
        items_with_label(gs, label) == Seq::<T>::empty(),
    decreases gs.len(),
{
    if gs.len() > 0 {
        lemma_items_absent_label(gs.drop_last(), label);
        assert(items_with_label(gs, label) =~= Seq::<T>::empty());
    }
}

fn find_group<T>(acc: &Vec<MenuBarGroupConfig<T>>, label: &String) -> (r: Option<usize>)
    ensures
        r matches Some(j) ==> j < acc@.len() && acc@[j as int].label@ == label@,
        r is None ==> forall|i: int| 0 <= i < acc@.len() ==> acc@[i].label@ != label@,
{
    let mut j: usize = 0;
    while j < acc.len()
        invariant
            j <= acc@.len(),
            forall|i: int| 0 <= i < j ==> acc@[i].label@ != label@,
        decreases acc@.len() - j,
    {
        if acc[j].label == *label {
            return Some(j);
        }
        j = j + 1;
    }
    None
}

/// Joins menus with the same label: the first menu with a label keeps its
/// place, and the items of later menus with that label are appended to it.
pub fn merge_menu_groups<T>(groups: Vec<MenuBarGroupConfig<T>>) -> (r: Vec<MenuBarGroupConfig<T>>)
    ensures
        group_views(r@) == merged_groups(group_views(groups@)),
{
    let ghost all = group_views(groups@);
    let mut rest = groups;
    let mut acc: Vec<MenuBarGroupConfig<T>> = Vec::new();
    let ghost n = all.len();
    assert(group_views(acc@) =~= merged_groups(all.take(0)));
    assert(group_views(rest@) =~= all.skip(0));
    while rest.len() > 0
        invariant
            n == all.len(),
            rest@.len() <= n,
            group_views(rest@) == all.skip(n - rest@.len()),
            group_views(acc@) == merged_groups(all.take(n - rest@.len())),
        decreases rest@.len(),
    {
        let ghost k = n - rest@.len();
        let ghost acc_v = group_views(acc@);
        let g = rest.remove(0);
        assert(group_view(g) == all[k]) by {
            assert(all.skip(k)[0] == all[k]);
        }
        assert(group_views(rest@) =~= all.skip(k + 1)) by {
            assert(all.skip(k).drop_first() =~= all.skip(k + 1));
        }
        proof {
            assert(all.take(k + 1).drop_last() =~= all.take(k));
            law_merged_groups(all.take(k));
        }
        let pos = find_group(&acc, &g.label);
        if let Some(j) = pos {
            let mut e = acc.remove(j);
            let MenuBarGroupConfig { label: _, items } = g;
            let mut items = items;
            e.items.append(&mut items);
            acc.insert(j, e);
            proof {
                assert(acc_v[j as int].label == g.label@);
                let i = choose|i: int| 0 <= i < acc_v.len() && acc_v[i].label == g.label@;
                assert(i == j);
                assert(group_views(acc@) =~= merge_step(acc_v, all[k]));
            }
        } else {
            proof {
                assert forall|i: int| 0 <= i < acc_v.len() implies acc_v[i].label != g.label@ by {
                    assert(acc@[i].label@ != g.label@);
                }
            }
            acc.push(g);
            assert(group_views(acc@) =~= merge_step(acc_v, all[k]));
        }
    }
    assert(all.take(n as int) =~= all);
    acc
}

/// The menus of the enabled plugins (each given with whether it is enabled),
/// in plugin order.
pub open spec fn enabled_groups<T>(plugins: Seq<(bool, Vec<MenuBarGroupConfig<T>>)>) -> Seq<
    GroupView<T>,
>
    decreases plugins.len(),
{
    if plugins.len() == 0 {
        Seq::empty()
    } else {
        enabled_groups(plugins.drop_last()) + if plugins.last().0 {
            group_views(plugins.last().1@)
        } else {
            Seq::empty()
        }
    }
}

/// The menu bar's menus: those of the enabled plugins, joined by label.
pub fn menu_groups_of_plugins<T>(plugins: Vec<(bool, Vec<MenuBarGroupConfig<T>>)>) -> (r: Vec<
    MenuBarGroupConfig<T>,
>)
    ensures
        group_views(r@) == merged_groups(enabled_groups(plugins@)),
{
    let ghost ps = plugins@;
    let ghost n = ps.len();
    let mut rest = plugins;
    let mut all: Vec<MenuBarGroupConfig<T>> = Vec::new();
    assert(group_views(all@) =~= enabled_groups(ps.take(0)));
    assert(rest@ =~= ps.skip(0));
    while rest.len() > 0
        invariant
            n == ps.len(),
            rest@.len() <= n,
            rest@ == ps.skip(n - rest@.len()),
            group_views(all@) == enabled_groups(ps.take(n - rest@.len())),
        decreases rest@.len(),
    {
        let ghost done = n - rest@.len();
        let ghost before = all@;
        let p = rest.remove(0);
        assert(ps.skip(done)[0] == ps[done]);
        assert(rest@ =~= ps.skip(done + 1));
        assert(ps.take(done + 1).drop_last() =~= ps.take(done));
        let (enabled, groups) = p;
        let ghost gv = group_views(groups@);
        if enabled {
            let mut groups = groups;
            all.append(&mut groups);
            assert(group_views(all@) =~= group_views(before) + gv);
        } else {
            assert(group_views(all@) =~= group_views(before) + Seq::<GroupView<T>>::empty());
        }
    }
    assert(ps.take(n as int) =~= ps);
    merge_menu_groups(all)
}

} // verus!
