use vstd::prelude::*;

use crate::plugin::{PanelConfig, Plugin};
use crate::workspace::{
    add_panel, assembled_workspaces, claim_for_panel, claim_for_plugin, claim_plugins,
    declare_plugins, declare_workspaces, panel_key, ws_key, WorkspaceView,
};

verus! {

/// Plugin `i` is enabled and declares a workspace at position `j`.
pub open spec fn declares(ps: Seq<Plugin>, i: int, j: int) -> bool {
    &&& 0 <= i < ps.len()
    &&& ps[i].is_enabled
    &&& 0 <= j < ps[i].workspaces@.len()
}

/// The identifier text of the workspace that plugin `i` declares at position `j`.
pub open spec fn decl_key(ps: Seq<Plugin>, i: int, j: int) -> Seq<char> {
    ws_key(ps[i].name@, ps[i].workspaces@[j].name@)
}

/// Plugin `i` is enabled and its panel `j` asks for the workspace at position `k` of its list.
pub open spec fn claims(ps: Seq<Plugin>, i: int, j: int, k: int) -> bool {
    &&& 0 <= i < ps.len()
    &&& ps[i].is_enabled
    &&& 0 <= j < ps[i].panels@.len()
    &&& 0 <= k < ps[i].panels@[j].workspaces@.len()
}

/// The workspace that such a request names.
pub open spec fn claim_target(ps: Seq<Plugin>, i: int, j: int, k: int) -> Seq<char> {
    ps[i].panels@[j].workspaces@[k]@
}

/// The identifier text of panel `j` of plugin `i`.
pub open spec fn claim_panel(ps: Seq<Plugin>, i: int, j: int) -> Seq<char> {
    panel_key(ps[i].name@, ps[i].panels@[j].name@)
}

/// `m1` has the workspaces of `m0` under the same names, showing at least
/// the panels they showed, and free of repeats wherever `m0` was.
pub open spec fn grows(m0: Map<Seq<char>, WorkspaceView>, m1: Map<Seq<char>, WorkspaceView>) -> bool {
    &&& m1.dom() == m0.dom()
    &&& forall|w: Seq<char>| #[trigger]
        m0.contains_key(w) ==> {
            &&& m1[w].name == m0[w].name
            &&& forall|x: Seq<char>| #[trigger]
                m0[w].panels.contains(x) ==> m1[w].panels.contains(x)
            &&& m0[w].panels.no_duplicates() ==> m1[w].panels.no_duplicates()
        }
}

proof fn lemma_grows_refl(m: Map<Seq<char>, WorkspaceView>)
    ensures
        grows(m, m),
{
}

proof fn lemma_grows_trans(
    a: Map<Seq<char>, WorkspaceView>,
    b: Map<Seq<char>, WorkspaceView>,
    c: Map<Seq<char>, WorkspaceView>,
)
    requires
        grows(a, b),
        grows(b, c),
    ensures
        grows(a, c),
{
    assert forall|w: Seq<char>| #[trigger] a.contains_key(w) implies {
        &&& c[w].name == a[w].name
        &&& forall|x: Seq<char>| #[trigger] a[w].panels.contains(x) ==> c[w].panels.contains(x)
        &&& a[w].panels.no_duplicates() ==> c[w].panels.no_duplicates()
    } by {
        assert(b.contains_key(w));
        assert forall|x: Seq<char>| #[trigger] a[w].panels.contains(x) implies c[w].panels.contains(
            x,
        ) by {
            assert(b[w].panels.contains(x));
        }
    }
}

proof fn lemma_add_panel(m: Map<Seq<char>, WorkspaceView>, wid: Seq<char>, pid: Seq<char>)
    ensures
        grows(m, add_panel(m, wid, pid)),
        m.contains_key(wid) ==> add_panel(m, wid, pid)[wid].panels.contains(pid),
        forall|w: Seq<char>, x: Seq<char>|
            m.contains_key(w) && #[trigger] add_panel(m, wid, pid)[w].panels.contains(x) ==> m[w].panels.contains(x)
                || (w == wid && x == pid),
{
    let r = add_panel(m, wid, pid);
    if m.contains_key(wid) && !m[wid].panels.contains(pid) {
        let ps0 = m[wid].panels;
        let ps1 = ps0.push(pid);
        assert(ps1[ps0.len() as int] == pid);
        assert forall|x: Seq<char>| #[trigger] ps0.contains(x) implies ps1.contains(x) by {
            let i = choose|i: int| 0 <= i < ps0.len() && ps0[i] == x;
            assert(ps1[i] == x);
        }
        assert forall|x: Seq<char>| #[trigger] ps1.contains(x) implies ps0.contains(x) || x == pid by {
            let i = choose|i: int| 0 <= i < ps1.len() && ps1[i] == x;
            if i < ps0.len() {
                assert(ps0[i] == x);
            }
        }
        assert(r.dom() =~= m.dom());
    }
}

proof fn lemma_claim_for_panel(m: Map<Seq<char>, WorkspaceView>, pid: Seq<char>, q: PanelConfig, k: int)
    ensures
        grows(m, claim_for_panel(m, pid, q, k)),
        forall|kk: int|
            0 <= kk < k && m.contains_key(#[trigger] q.workspaces@[kk]@) ==> claim_for_panel(
                m,
                pid,
                q,
                k,
            )[q.workspaces@[kk]@].panels.contains(pid),
        forall|w: Seq<char>, x: Seq<char>|
            m.contains_key(w) && #[trigger] claim_for_panel(m, pid, q, k)[w].panels.contains(x)
                ==> m[w].panels.contains(x) || (x == pid && exists|kk: int|
                0 <= kk < k && #[trigger] q.workspaces@[kk]@ == w),
    decreases k,
{
    if k <= 0 {
        lemma_grows_refl(m);
    } else {
        let m1 = claim_for_panel(m, pid, q, k - 1);
        let wid = q.workspaces@[k - 1]@;
        let r = add_panel(m1, wid, pid);
        lemma_claim_for_panel(m, pid, q, k - 1);
        lemma_add_panel(m1, wid, pid);
        lemma_grows_trans(m, m1, r);
        assert forall|kk: int| 0 <= kk < k && m.contains_key(#[trigger] q.workspaces@[kk]@) implies r[q.workspaces@[kk]@].panels.contains(pid) by {
            let w = q.workspaces@[kk]@;
            if kk < k - 1 {
                assert(m1[w].panels.contains(pid));
            }
        }
        assert forall|w: Seq<char>, x: Seq<char>|
            m.contains_key(w) && #[trigger] r[w].panels.contains(x) implies m[w].panels.contains(x)
            || (x == pid && exists|kk: int| 0 <= kk < k && #[trigger] q.workspaces@[kk]@ == w) by {
            assert(m1.contains_key(w));
            if m1[w].panels.contains(x) {
                if !m[w].panels.contains(x) {
                    let kk = choose|kk: int| 0 <= kk < k - 1 && #[trigger] q.workspaces@[kk]@ == w;
                    assert(0 <= kk < k && q.workspaces@[kk]@ == w);
                }
            } else {
                assert(w == wid && x == pid);
                assert(q.workspaces@[k - 1]@ == w);
            }
        }
    }
}

/// Panel `j` of plugin `p` asks for the workspace at position `k` of its list.
pub open spec fn plugin_claim(p: Plugin, j: int, k: int) -> bool {
    0 <= j < p.panels@.len() && 0 <= k < p.panels@[j].workspaces@.len()
}

proof fn lemma_claim_for_plugin(m: Map<Seq<char>, WorkspaceView>, p: Plugin, j: int)
    requires
        j <= p.panels@.len(),
    ensures
        grows(m, claim_for_plugin(m, p, j)),
        forall|jj: int, kk: int|
            jj < j && #[trigger] plugin_claim(p, jj, kk) && m.contains_key(
                p.panels@[jj].workspaces@[kk]@,
            ) ==> claim_for_plugin(m, p, j)[p.panels@[jj].workspaces@[kk]@].panels.contains(
                panel_key(p.name@, p.panels@[jj].name@),
            ),
        forall|w: Seq<char>, x: Seq<char>|
            m.contains_key(w) && #[trigger] claim_for_plugin(m, p, j)[w].panels.contains(x)
                ==> m[w].panels.contains(x) || exists|jj: int, kk: int|
                jj < j && #[trigger] plugin_claim(p, jj, kk) && p.panels@[jj].workspaces@[kk]@ == w
                    && x == panel_key(p.name@, p.panels@[jj].name@),
    decreases j,
{
    if j <= 0 {
        lemma_grows_refl(m);
    } else {
        let m1 = claim_for_plugin(m, p, j - 1);
        let q = p.panels@[j - 1];
        let pid = panel_key(p.name@, q.name@);
        let n = q.workspaces@.len() as int;
        let r = claim_for_panel(m1, pid, q, n);
        lemma_claim_for_plugin(m, p, j - 1);
        lemma_claim_for_panel(m1, pid, q, n);
        lemma_grows_trans(m, m1, r);
        assert forall|jj: int, kk: int|
            jj < j && #[trigger] plugin_claim(p, jj, kk) && m.contains_key(
                p.panels@[jj].workspaces@[kk]@,
            ) implies r[p.panels@[jj].workspaces@[kk]@].panels.contains(
            panel_key(p.name@, p.panels@[jj].name@),
        ) by {
            let w = p.panels@[jj].workspaces@[kk]@;
            assert(m1.contains_key(w));
            if jj < j - 1 {
                assert(m1[w].panels.contains(panel_key(p.name@, p.panels@[jj].name@)));
            } else {
                assert(q.workspaces@[kk]@ == w);
            }
        }
        assert forall|w: Seq<char>, x: Seq<char>|
            m.contains_key(w) && #[trigger] r[w].panels.contains(x) implies m[w].panels.contains(x)
            || exists|jj: int, kk: int|
            jj < j && #[trigger] plugin_claim(p, jj, kk) && p.panels@[jj].workspaces@[kk]@ == w && x
                == panel_key(p.name@, p.panels@[jj].name@) by {
            assert(m1.contains_key(w));
            if m1[w].panels.contains(x) {
                if !m[w].panels.contains(x) {
                    let (jj, kk) = choose|jj: int, kk: int|
                        jj < j - 1 && #[trigger] plugin_claim(p, jj, kk)
                            && p.panels@[jj].workspaces@[kk]@ == w && x == panel_key(
                            p.name@,
                            p.panels@[jj].name@,
                        );
                    assert(jj < j && plugin_claim(p, jj, kk));
                }
            } else {
                let kk = choose|kk: int| 0 <= kk < n && #[trigger] q.workspaces@[kk]@ == w;
                assert(plugin_claim(p, j - 1, kk));
            }
        }
    }
}

proof fn lemma_claim_plugins(m: Map<Seq<char>, WorkspaceView>, ps: Seq<Plugin>, i: int)
    requires
        i <= ps.len(),
    ensures
        grows(m, claim_plugins(m, ps, i)),
        forall|ii: int, jj: int, kk: int|
            ii < i && #[trigger] claims(ps, ii, jj, kk) && m.contains_key(
                claim_target(ps, ii, jj, kk),
            ) ==> claim_plugins(m, ps, i)[claim_target(ps, ii, jj, kk)].panels.contains(
                claim_panel(ps, ii, jj),
            ),
        forall|w: Seq<char>, x: Seq<char>|
            m.contains_key(w) && #[trigger] claim_plugins(m, ps, i)[w].panels.contains(x)
                ==> m[w].panels.contains(x) || exists|ii: int, jj: int, kk: int|
                ii < i && #[trigger] claims(ps, ii, jj, kk) && claim_target(ps, ii, jj, kk) == w
                    && x == claim_panel(ps, ii, jj),
    decreases i,
{
    if i <= 0 {
        lemma_grows_refl(m);
    } else {
        let m1 = claim_plugins(m, ps, i - 1);
        let p = ps[i - 1];
        lemma_claim_plugins(m, ps, i - 1);
        if p.is_enabled {
            let r = claim_for_plugin(m1, p, p.panels@.len() as int);
            lemma_claim_for_plugin(m1, p, p.panels@.len() as int);
            lemma_grows_trans(m, m1, r);
            assert forall|ii: int, jj: int, kk: int|
                ii < i && #[trigger] claims(ps, ii, jj, kk) && m.contains_key(
                    claim_target(ps, ii, jj, kk),
                ) implies r[claim_target(ps, ii, jj, kk)].panels.contains(claim_panel(ps, ii, jj)) by {
                let w = claim_target(ps, ii, jj, kk);
                assert(m1.contains_key(w));
                if ii < i - 1 {
                    assert(m1[w].panels.contains(claim_panel(ps, ii, jj)));
                } else {
                    assert(plugin_claim(p, jj, kk));
                }
            }
            assert forall|w: Seq<char>, x: Seq<char>|
                m.contains_key(w) && #[trigger] r[w].panels.contains(x) implies m[w].panels.contains(
                x,
            ) || exists|ii: int, jj: int, kk: int|
                ii < i && #[trigger] claims(ps, ii, jj, kk) && claim_target(ps, ii, jj, kk) == w
                    && x == claim_panel(ps, ii, jj) by {
                assert(m1.contains_key(w));
                if m1[w].panels.contains(x) {
                    if !m[w].panels.contains(x) {
                        let (ii, jj, kk) = choose|ii: int, jj: int, kk: int|
                            ii < i - 1 && #[trigger] claims(ps, ii, jj, kk) && claim_target(
                                ps,
                                ii,
                                jj,
                                kk,
                            ) == w && x == claim_panel(ps, ii, jj);
                        assert(ii < i && claims(ps, ii, jj, kk));
                    }
                } else {
                    let (jj, kk) = choose|jj: int, kk: int|
                        jj < p.panels@.len() && #[trigger] plugin_claim(p, jj, kk)
                            && p.panels@[jj].workspaces@[kk]@ == w && x == panel_key(
                            p.name@,
                            p.panels@[jj].name@,
                        );
                    assert(claims(ps, i - 1, jj, kk));
                }
            }
        } else {
            assert forall|ii: int, jj: int, kk: int|
                ii < i && #[trigger] claims(ps, ii, jj, kk) && m.contains_key(
                    claim_target(ps, ii, jj, kk),
                ) implies m1[claim_target(ps, ii, jj, kk)].panels.contains(claim_panel(ps, ii, jj)) by {
                assert(ii < i - 1);
            }
            assert forall|w: Seq<char>, x: Seq<char>|
                m.contains_key(w) && #[trigger] m1[w].panels.contains(x) implies m[w].panels.contains(
                x,
            ) || exists|ii: int, jj: int, kk: int|
                ii < i && #[trigger] claims(ps, ii, jj, kk) && claim_target(ps, ii, jj, kk) == w
                    && x == claim_panel(ps, ii, jj) by {
                if !m[w].panels.contains(x) {
                    let (ii, jj, kk) = choose|ii: int, jj: int, kk: int|
                        ii < i - 1 && #[trigger] claims(ps, ii, jj, kk) && claim_target(
                            ps,
                            ii,
                            jj,
                            kk,
                        ) == w && x == claim_panel(ps, ii, jj);
                    assert(ii < i && claims(ps, ii, jj, kk));
                }
            }
        }
    }
}

/// Plugin `p` declares a workspace at position `j`.
pub open spec fn plugin_decl(p: Plugin, j: int) -> bool {
    0 <= j < p.workspaces@.len()
}

proof fn lemma_declare_workspaces(m: Map<Seq<char>, WorkspaceView>, p: Plugin, j: int)
    requires
        j <= p.workspaces@.len(),
    ensures
        forall|k: Seq<char>| m.contains_key(k) ==> #[trigger] declare_workspaces(m, p, j).contains_key(k),
        forall|jj: int|
            jj < j && #[trigger] plugin_decl(p, jj) ==> declare_workspaces(m, p, j).contains_key(
                ws_key(p.name@, p.workspaces@[jj].name@),
            ),
        forall|k: Seq<char>| #[trigger]
            declare_workspaces(m, p, j).contains_key(k) ==> (m.contains_key(k) && declare_workspaces(
                m,
                p,
                j,
            )[k] == m[k]) || exists|jj: int|
                jj < j && #[trigger] plugin_decl(p, jj) && ws_key(p.name@, p.workspaces@[jj].name@)
                    == k && declare_workspaces(m, p, j)[k] == p.workspaces@[jj]@,
    decreases j,
{
    if j > 0 {
        lemma_declare_workspaces(m, p, j - 1);
        let m1 = declare_workspaces(m, p, j - 1);
        let key = ws_key(p.name@, p.workspaces@[j - 1].name@);
        let r = declare_workspaces(m, p, j);
        assert(r == m1.insert(key, p.workspaces@[j - 1]@));
        assert forall|jj: int| jj < j && #[trigger] plugin_decl(p, jj) implies r.contains_key(
            ws_key(p.name@, p.workspaces@[jj].name@),
        ) by {
            if jj < j - 1 {
                assert(m1.contains_key(ws_key(p.name@, p.workspaces@[jj].name@)));
            }
        }
        assert forall|k: Seq<char>| #[trigger] r.contains_key(k) implies (m.contains_key(k) && r[k]
            == m[k]) || exists|jj: int|
            jj < j && #[trigger] plugin_decl(p, jj) && ws_key(p.name@, p.workspaces@[jj].name@) == k
                && r[k] == p.workspaces@[jj]@ by {
            if k == key {
                assert(plugin_decl(p, j - 1));
            } else {
                assert(m1.contains_key(k));
                if !(m.contains_key(k) && m1[k] == m[k]) {
                    let jj = choose|jj: int|
                        jj < j - 1 && #[trigger] plugin_decl(p, jj) && ws_key(
                            p.name@,
                            p.workspaces@[jj].name@,
                        ) == k && m1[k] == p.workspaces@[jj]@;
                    assert(jj < j && plugin_decl(p, jj));
                }
            }
        }
    }
}

proof fn lemma_declare_plugins(ps: Seq<Plugin>, i: int)
    requires
        i <= ps.len(),
    ensures
        forall|ii: int, jj: int|
            ii < i && #[trigger] declares(ps, ii, jj) ==> declare_plugins(ps, i).contains_key(
                decl_key(ps, ii, jj),
            ),
        forall|k: Seq<char>| #[trigger]
            declare_plugins(ps, i).contains_key(k) ==> exists|ii: int, jj: int|
                ii < i && #[trigger] declares(ps, ii, jj) && decl_key(ps, ii, jj) == k
                    && declare_plugins(ps, i)[k] == ps[ii].workspaces@[jj]@,
    decreases i,
{
    if i > 0 {
        lemma_declare_plugins(ps, i - 1);
        let m1 = declare_plugins(ps, i - 1);
        let p = ps[i - 1];
        let r = declare_plugins(ps, i);
        if p.is_enabled {
            lemma_declare_workspaces(m1, p, p.workspaces@.len() as int);
            assert forall|ii: int, jj: int| ii < i && #[trigger] declares(ps, ii, jj) implies r.contains_key(
                decl_key(ps, ii, jj),
            ) by {
                if ii < i - 1 {
                    assert(m1.contains_key(decl_key(ps, ii, jj)));
                } else {
                    assert(plugin_decl(p, jj));
                }
            }
            assert forall|k: Seq<char>| #[trigger] r.contains_key(k) implies exists|ii: int, jj: int|
                ii < i && #[trigger] declares(ps, ii, jj) && decl_key(ps, ii, jj) == k && r[k]
                    == ps[ii].workspaces@[jj]@ by {
                if m1.contains_key(k) && r[k] == m1[k] {
                    let (ii, jj) = choose|ii: int, jj: int|
                        ii < i - 1 && #[trigger] declares(ps, ii, jj) && decl_key(ps, ii, jj) == k
                            && m1[k] == ps[ii].workspaces@[jj]@;
                    assert(ii < i && declares(ps, ii, jj));
                } else {
                    let jj = choose|jj: int|
                        jj < p.workspaces@.len() && #[trigger] plugin_decl(p, jj) && ws_key(
                            p.name@,
                            p.workspaces@[jj].name@,
                        ) == k && r[k] == p.workspaces@[jj]@;
                    assert(declares(ps, i - 1, jj));
                }
            }
        } else {
            assert forall|ii: int, jj: int| ii < i && #[trigger] declares(ps, ii, jj) implies r.contains_key(
                decl_key(ps, ii, jj),
            ) by {
                assert(ii < i - 1);
            }
            assert forall|k: Seq<char>| #[trigger] r.contains_key(k) implies exists|ii: int, jj: int|
                ii < i && #[trigger] declares(ps, ii, jj) && decl_key(ps, ii, jj) == k && r[k]
                    == ps[ii].workspaces@[jj]@ by {
                let (ii, jj) = choose|ii: int, jj: int|
                    ii < i - 1 && #[trigger] declares(ps, ii, jj) && decl_key(ps, ii, jj) == k
                        && m1[k] == ps[ii].workspaces@[jj]@;
                assert(ii < i && declares(ps, ii, jj));
            }
        }
    }
}

proof fn lemma_assembled(ps: Seq<Plugin>)
    ensures
        grows(declare_plugins(ps, ps.len() as int), assembled_workspaces(ps)),
{
    lemma_claim_plugins(declare_plugins(ps, ps.len() as int), ps, ps.len() as int);
    lemma_declare_plugins(ps, ps.len() as int);
}

/// Law: the assembled registry holds exactly the workspaces that enabled
/// plugins declare, under `plugin::workspace::name`.
pub proof fn law_assembled_domain(ps: Seq<Plugin>, k: Seq<char>)
    ensures
        assembled_workspaces(ps).contains_key(k) <==> exists|i: int, j: int|
            #[trigger] declares(ps, i, j) && decl_key(ps, i, j) == k,
{
    let d = declare_plugins(ps, ps.len() as int);
    lemma_assembled(ps);
    lemma_declare_plugins(ps, ps.len() as int);
    if exists|i: int, j: int| #[trigger] declares(ps, i, j) && decl_key(ps, i, j) == k {
        let (i, j) = choose|i: int, j: int| #[trigger] declares(ps, i, j) && decl_key(ps, i, j) == k;
        assert(d.contains_key(decl_key(ps, i, j)));
    }
    if d.contains_key(k) {
        let (i, j) = choose|i: int, j: int|
            i < ps.len() && #[trigger] declares(ps, i, j) && decl_key(ps, i, j) == k && d[k]
                == ps[i].workspaces@[j]@;
        assert(declares(ps, i, j));
    }
}

/// Law: each assembled workspace keeps the name of a workspace that an enabled
/// plugin declared under its identifier.
pub proof fn law_assembled_name(ps: Seq<Plugin>, k: Seq<char>)
    requires
        assembled_workspaces(ps).contains_key(k),
    ensures
        exists|i: int, j: int|
            #[trigger] declares(ps, i, j) && decl_key(ps, i, j) == k && assembled_workspaces(
                ps,
            )[k].name == ps[i].workspaces@[j].name@,
{
    let d = declare_plugins(ps, ps.len() as int);
    lemma_assembled(ps);
    lemma_declare_plugins(ps, ps.len() as int);
    assert(d.contains_key(k));
    let (i, j) = choose|i: int, j: int|
        i < ps.len() && #[trigger] declares(ps, i, j) && decl_key(ps, i, j) == k && d[k]
            == ps[i].workspaces@[j]@;
    assert(declares(ps, i, j));
}

/// Law: a panel of an enabled plugin is shown in every workspace it asks for,
/// provided that workspace is registered.
pub proof fn law_assembled_claims_honored(ps: Seq<Plugin>, i: int, j: int, k: int)
    requires
        claims(ps, i, j, k),
        assembled_workspaces(ps).contains_key(claim_target(ps, i, j, k)),
    ensures
        assembled_workspaces(ps)[claim_target(ps, i, j, k)].panels.contains(claim_panel(ps, i, j)),
{
    let d = declare_plugins(ps, ps.len() as int);
    lemma_assembled(ps);
    lemma_claim_plugins(d, ps, ps.len() as int);
}

/// Law: every panel an assembled workspace shows was either declared with the
/// workspace by its plugin, or asked for that workspace by an enabled plugin's panel.
pub proof fn law_assembled_panels_accounted(ps: Seq<Plugin>, w: Seq<char>, x: Seq<char>)
    requires
        assembled_workspaces(ps).contains_key(w),
        assembled_workspaces(ps)[w].panels.contains(x),
    ensures
        (exists|i: int, j: int|
            #[trigger] declares(ps, i, j) && decl_key(ps, i, j) == w
                && ps[i].workspaces@[j]@.panels.contains(x)) || (exists|i: int, j: int, k: int|
            #[trigger] claims(ps, i, j, k) && claim_target(ps, i, j, k) == w && claim_panel(ps, i, j)
                == x),
{
    let d = declare_plugins(ps, ps.len() as int);
    let r = assembled_workspaces(ps);
    lemma_assembled(ps);
    lemma_declare_plugins(ps, ps.len() as int);
    lemma_claim_plugins(d, ps, ps.len() as int);
    assert(d.contains_key(w));
    assert(r[w].panels.contains(x));
    if d[w].panels.contains(x) {
        let (i, j) = choose|i: int, j: int|
            i < ps.len() && #[trigger] declares(ps, i, j) && decl_key(ps, i, j) == w && d[w]
                == ps[i].workspaces@[j]@;
        assert(declares(ps, i, j));
    } else {
        let (i, j, k) = choose|i: int, j: int, k: int|
            i < ps.len() && #[trigger] claims(ps, i, j, k) && claim_target(ps, i, j, k) == w && x
                == claim_panel(ps, i, j);
        assert(claims(ps, i, j, k));
    }
}

/// Law: assembling never shows a panel twice in a workspace whose declarations
/// had no repeated panels.
pub proof fn law_assembled_no_duplicate_panels(ps: Seq<Plugin>, w: Seq<char>)
    requires
        assembled_workspaces(ps).contains_key(w),
        forall|i: int, j: int|
            #[trigger] declares(ps, i, j) && decl_key(ps, i, j) == w
                ==> ps[i].workspaces@[j]@.panels.no_duplicates(),
    ensures
        assembled_workspaces(ps)[w].panels.no_duplicates(),
{
    let d = declare_plugins(ps, ps.len() as int);
    lemma_assembled(ps);
    lemma_declare_plugins(ps, ps.len() as int);
    assert(d.contains_key(w));
    let (i, j) = choose|i: int, j: int|
        i < ps.len() && #[trigger] declares(ps, i, j) && decl_key(ps, i, j) == w && d[w]
            == ps[i].workspaces@[j]@;
    assert(declares(ps, i, j));
    assert(d[w].panels.no_duplicates());
}

} // verus!
