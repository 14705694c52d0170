use vstd::prelude::*;

use crate::plugin::{PanelConfig, Plugin, PluginRegistry};
use crate::resource_id::{id_text, ResourceId, ResourceType};

verus! {

/// What a workspace is: its name and the panels it shows, in order.
#[verifier::ext_equal]
pub struct WorkspaceView {
    pub name: Seq<char>,
    pub panels: Seq<Seq<char>>,
}

/// The texts of a sequence of identifiers.
pub open spec fn id_texts(ids: Seq<ResourceId>) -> Seq<Seq<char>> {
    ids.map_values(|r: ResourceId| r@)
}

/// A named set of panels shown together.
#[derive(Clone)]
pub struct Workspace {
    pub name: String,
    pub panels: Vec<ResourceId>,
}

impl View for Workspace {
    type V = WorkspaceView;

    open spec fn view(&self) -> WorkspaceView {
        WorkspaceView { name: self.name@, panels: id_texts(self.panels@) }
    }
}

/// A copy of a list of identifiers.
pub fn copy_ids(ids: &Vec<ResourceId>) -> (r: Vec<ResourceId>)
    ensures
        id_texts(r@) == id_texts(ids@),
{
    let mut r: Vec<ResourceId> = Vec::new();
    let mut i: usize = 0;
    while i < ids.len()
        invariant
            i <= ids@.len(),
            r@.len() == i,
            forall|j: int| 0 <= j < i ==> (#[trigger] r@[j])@ == ids@[j]@,
        decreases ids@.len() - i,
    {
        r.push(ids[i].duplicate());
        i = i + 1;
    }
    assert(id_texts(r@) =~= id_texts(ids@));
    r
}

/// Whether the list holds an identifier with the same text as `id`.
pub fn contains_id(ids: &Vec<ResourceId>, id: &ResourceId) -> (r: bool)
    ensures
        r == id_texts(ids@).contains(id@),
{
    let mut i: usize = 0;
    while i < ids.len()
        invariant
            i <= ids@.len(),
            forall|j: int| 0 <= j < i ==> ids@[j]@ != id@,
        decreases ids@.len() - i,
    {
        if ids[i].same_as(id) {
            assert(id_texts(ids@)[i as int] == id@);
            return true;
        }
        i = i + 1;
    }
    assert forall|j: int| 0 <= j < id_texts(ids@).len() implies id_texts(ids@)[j] != id@ by {
        assert(ids@[j]@ != id@);
    }
    false
}

impl Workspace {
    /// A copy of this workspace.
    pub fn duplicate(&self) -> (r: Self)
        ensures
            r@ == self@,
    {
        Workspace { name: self.name.clone(), panels: copy_ids(&self.panels) }
    }
}

impl Default for Workspace {
    fn default() -> (r: Self)
        ensures
            r@.name.len() == 0,
            r@.panels.len() == 0,
    {
        let r = Workspace { name: String::new(), panels: Vec::new() };
        assert(r@.panels =~= Seq::<Seq<char>>::empty());
        r
    }
}

/// What a registry is: its workspaces by identifier text, and the current one.
#[verifier::ext_equal]
pub struct RegistryView {
    pub workspaces: Map<Seq<char>, WorkspaceView>,
    pub current: Option<Seq<char>>,
}

/// The workspace that is current in `v`, if any.
pub open spec fn current_workspace(v: RegistryView) -> Option<WorkspaceView> {
    match v.current {
        Some(c) => if v.workspaces.contains_key(c) {
            Some(v.workspaces[c])
        } else {
            None
        },
        None => None,
    }
}

/// A registry after a request to make workspace `id` current: it becomes
/// current when it is registered; otherwise nothing changes.
pub open spec fn after_set_current(v: RegistryView, id: Seq<char>) -> RegistryView {
    if v.workspaces.contains_key(id) {
        RegistryView { workspaces: v.workspaces, current: Some(id) }
    } else {
        v
    }
}

/// The identifier text of workspace `name` of plugin `plugin`.
pub open spec fn ws_key(plugin: Seq<char>, name: Seq<char>) -> Seq<char> {
    id_text(ResourceType::Workspace, plugin, name)
}

/// The identifier text of panel `name` of plugin `plugin`.
pub open spec fn panel_key(plugin: Seq<char>, name: Seq<char>) -> Seq<char> {
    id_text(ResourceType::Panel, plugin, name)
}

/// `m` after registering the first `j` workspaces that plugin `p` declares;
/// a later declaration of the same identifier replaces an earlier one.
pub open spec fn declare_workspaces(m: Map<Seq<char>, WorkspaceView>, p: Plugin, j: int) -> Map<
    Seq<char>,
    WorkspaceView,
>
    decreases j,
{
    if j <= 0 {
        m
    } else {
        declare_workspaces(m, p, j - 1).insert(
            ws_key(p.name@, p.workspaces@[j - 1].name@),
            p.workspaces@[j - 1]@,
        )
    }
}

/// The workspaces that the enabled plugins among the first `i` declare.
pub open spec fn declare_plugins(ps: Seq<Plugin>, i: int) -> Map<Seq<char>, WorkspaceView>
    decreases i,
{
    if i <= 0 {
        Map::empty()
    } else {
        let m = declare_plugins(ps, i - 1);
        if ps[i - 1].is_enabled {
            declare_workspaces(m, ps[i - 1], ps[i - 1].workspaces@.len() as int)
        } else {
            m
        }
    }
}

/// `m` after panel `pid` asks to be shown in workspace `wid`: it is appended
/// when the workspace exists and does not show it yet.
pub open spec fn add_panel(m: Map<Seq<char>, WorkspaceView>, wid: Seq<char>, pid: Seq<char>) -> Map<
    Seq<char>,
    WorkspaceView,
> {
    if m.contains_key(wid) && !m[wid].panels.contains(pid) {
        m.insert(wid, WorkspaceView { name: m[wid].name, panels: m[wid].panels.push(pid) })
    } else {
        m
    }
}

/// `m` after panel `pid` (configured as `q`) asks for the first `k` of its workspaces.
pub open spec fn claim_for_panel(
    m: Map<Seq<char>, WorkspaceView>,
    pid: Seq<char>,
    q: PanelConfig,
    k: int,
) -> Map<Seq<char>, WorkspaceView>
    decreases k,
{
    if k <= 0 {
        m
    } else {
        add_panel(claim_for_panel(m, pid, q, k - 1), q.workspaces@[k - 1]@, pid)
    }
}

/// `m` after the first `j` panels of plugin `p` ask for their workspaces.
pub open spec fn claim_for_plugin(m: Map<Seq<char>, WorkspaceView>, p: Plugin, j: int) -> Map<
    Seq<char>,
    WorkspaceView,
>
    decreases j,
{
    if j <= 0 {
        m
    } else {
        let q = p.panels@[j - 1];
        claim_for_panel(
            claim_for_plugin(m, p, j - 1),
            panel_key(p.name@, q.name@),
            q,
            q.workspaces@.len() as int,
        )
    }
}

/// `m` after the panels of the enabled plugins among the first `i` ask for their workspaces.
pub open spec fn claim_plugins(m: Map<Seq<char>, WorkspaceView>, ps: Seq<Plugin>, i: int) -> Map<
    Seq<char>,
    WorkspaceView,
>
    decreases i,
{
    if i <= 0 {
        m
    } else {
        let m1 = claim_plugins(m, ps, i - 1);
        if ps[i - 1].is_enabled {
            claim_for_plugin(m1, ps[i - 1], ps[i - 1].panels@.len() as int)
        } else {
            m1
        }
    }
}

/// The workspaces assembled from plugins: every enabled plugin's workspaces,
/// then every enabled plugin's panels added to the workspaces they name.
pub open spec fn assembled_workspaces(ps: Seq<Plugin>) -> Map<Seq<char>, WorkspaceView> {
    claim_plugins(declare_plugins(ps, ps.len() as int), ps, ps.len() as int)
}

struct Entry {
    id: ResourceId,
    workspace: Workspace,
}

spec fn entry_keys(es: Seq<Entry>) -> Seq<Seq<char>> {
    es.map_values(|e: Entry| e.id@)
}

spec fn entries_map(es: Seq<Entry>) -> Map<Seq<char>, WorkspaceView>
    decreases es.len(),
{
    if es.len() == 0 {
        Map::empty()
    } else {
        entries_map(es.drop_last()).insert(es.last().id@, es.last().workspace@)
    }
}

proof fn lemma_entries_map_dom(es: Seq<Entry>, k: Seq<char>)
    ensures
        entries_map(es).contains_key(k) <==> entry_keys(es).contains(k),
    decreases es.len(),
{
    if es.len() > 0 {
        lemma_entries_map_dom(es.drop_last(), k);
        let ks = entry_keys(es);
        let ks0 = entry_keys(es.drop_last());
        assert(ks0 =~= ks.drop_last());
        if ks.contains(k) {
            let i = choose|i: int| 0 <= i < ks.len() && ks[i] == k;
            if i < ks.len() - 1 {
                assert(ks0[i] == k);
            }
        }
        if ks0.contains(k) {
            let i = choose|i: int| 0 <= i < ks0.len() && ks0[i] == k;
            assert(ks[i] == k);
        }
        assert(ks[ks.len() - 1] == es.last().id@);
    }
}

proof fn lemma_entries_map_at(es: Seq<Entry>, i: int)
    requires
        entry_keys(es).no_duplicates(),
        0 <= i < es.len(),
    ensures
        entries_map(es).contains_key(es[i].id@),
        entries_map(es)[es[i].id@] == es[i].workspace@,
    decreases es.len(),
{
    if i < es.len() - 1 {
        let d = es.drop_last();
        assert(entry_keys(d) =~= entry_keys(es).drop_last());
        assert(entry_keys(es)[i] != entry_keys(es)[es.len() - 1]);
        lemma_entries_map_at(d, i);
    }
}

proof fn lemma_entries_map_update(es: Seq<Entry>, i: int, e: Entry)
    requires
        entry_keys(es).no_duplicates(),
        0 <= i < es.len(),
        e.id@ == es[i].id@,
    ensures
        entries_map(es.update(i, e)) == entries_map(es).insert(e.id@, e.workspace@),
        entry_keys(es.update(i, e)) == entry_keys(es),
    decreases es.len(),
{
    let u = es.update(i, e);
    assert(entry_keys(u) =~= entry_keys(es));
    let d = es.drop_last();
    if i == es.len() - 1 {
        assert(u.drop_last() =~= d);
        assert(entries_map(u) =~= entries_map(es).insert(e.id@, e.workspace@));
    } else {
        assert(entry_keys(d) =~= entry_keys(es).drop_last());
        lemma_entries_map_update(d, i, e);
        assert(u.drop_last() =~= d.update(i, e));
        assert(entry_keys(es)[i] != entry_keys(es)[es.len() - 1]);
        assert(entries_map(u) =~= entries_map(es).insert(e.id@, e.workspace@));
    }
}

fn find_entry(es: &Vec<Entry>, id: &ResourceId) -> (r: Option<usize>)
    ensures
        r matches Some(i) ==> i < es@.len() && es@[i as int].id@ == id@,
        r is None ==> !entry_keys(es@).contains(id@),
{
    let mut i: usize = 0;
    while i < es.len()
        invariant
            i <= es@.len(),
            forall|j: int| 0 <= j < i ==> es@[j].id@ != id@,
        decreases es@.len() - i,
    {
        if es[i].id.same_as(id) {
            return Some(i);
        }
        i = i + 1;
    }
    assert forall|j: int| 0 <= j < entry_keys(es@).len() implies entry_keys(es@)[j] != id@ by {
        assert(es@[j].id@ != id@);
    }
    None
}

/// Registers `w` under `id`, replacing the workspace registered there before.
fn upsert(es: &mut Vec<Entry>, id: ResourceId, w: Workspace)
    requires
        entry_keys(old(es)@).no_duplicates(),
    ensures
        entry_keys(final(es)@).no_duplicates(),
        entries_map(final(es)@) == entries_map(old(es)@).insert(id@, w@),
{
    match find_entry(es, &id) {
        Some(i) => {
            let ghost e = Entry { id, workspace: w };
            proof {
                lemma_entries_map_update(es@, i as int, e);
            }
            let _ = es.remove(i);
            es.insert(i, Entry { id, workspace: w });
            assert(es@ =~= old(es)@.update(i as int, e));
        },
        None => {
            let ghost before = es@;
            es.push(Entry { id, workspace: w });
            assert(entry_keys(es@) =~= entry_keys(before).push(id@));
            assert(es@.drop_last() =~= before);
        },
    }
}

/// Appends panel `pid` to workspace `wid` when that workspace exists and does not show it yet.
fn add_panel_to(es: &mut Vec<Entry>, wid: &ResourceId, pid: &ResourceId)
    requires
        entry_keys(old(es)@).no_duplicates(),
    ensures
        entry_keys(final(es)@).no_duplicates(),
        entries_map(final(es)@) == add_panel(entries_map(old(es)@), wid@, pid@),
{
    proof {
        lemma_entries_map_dom(es@, wid@);
    }
    match find_entry(es, wid) {
        Some(i) => {
            proof {
                lemma_entries_map_at(es@, i as int);
            }
            if !contains_id(&es[i].workspace.panels, pid) {
                let ghost before = es@;
                let mut e = es.remove(i);
                let ghost old_panels = e.workspace.panels@;
                e.workspace.panels.push(pid.duplicate());
                assert(id_texts(e.workspace.panels@) =~= id_texts(old_panels).push(pid@));
                proof {
                    lemma_entries_map_update(before, i as int, e);
                }
                es.insert(i, e);
                assert(es@ =~= before.update(i as int, e));
            }
        },
        None => {},
    }
}

proof fn lemma_entries_same_view(a: Seq<Entry>, b: Seq<Entry>)
    requires
        a.len() == b.len(),
        forall|j: int|
            0 <= j < a.len() ==> (#[trigger] a[j]).id@ == b[j].id@ && a[j].workspace@
                == b[j].workspace@,
    ensures
        entry_keys(a) == entry_keys(b),
        entries_map(a) == entries_map(b),
    decreases a.len(),
{
    assert(entry_keys(a) =~= entry_keys(b));
    if a.len() > 0 {
        lemma_entries_same_view(a.drop_last(), b.drop_last());
    }
}

/// The workspaces known to the editor and the one currently shown.
pub struct WorkspaceRegistry {
    entries: Vec<Entry>,
    current: Option<ResourceId>,
}

impl View for WorkspaceRegistry {
    type V = RegistryView;

    closed spec fn view(&self) -> RegistryView {
        RegistryView {
            workspaces: entries_map(self.entries@),
            current: match self.current {
                Some(c) => Some(c@),
                None => None,
            },
        }
    }
}

impl WorkspaceRegistry {
    #[verifier::type_invariant]
    spec fn well_formed(self) -> bool {
        &&& entry_keys(self.entries@).no_duplicates()
        &&& self.current matches Some(c) ==> entry_keys(self.entries@).contains(c@)
    }

    pub fn get(&self, id: ResourceId) -> (r: Option<&Workspace>)
        ensures
            r is Some <==> self@.workspaces.contains_key(id@),
            r matches Some(w) ==> w@ == self@.workspaces[id@],
    {
        proof {
            use_type_invariant(self);
            lemma_entries_map_dom(self.entries@, id@);
        }
        match find_entry(&self.entries, &id) {
            Some(i) => {
                proof {
                    lemma_entries_map_at(self.entries@, i as int);
                }
                Some(&self.entries[i].workspace)
            },
            None => None,
        }
    }

    pub fn set_current(&mut self, workspace_id: ResourceId)
        ensures
            final(self)@ == after_set_current(old(self)@, workspace_id@),
    {
        proof {
            use_type_invariant(&*self);
            lemma_entries_map_dom(self.entries@, workspace_id@);
        }
        match find_entry(&self.entries, &workspace_id) {
            Some(i) => {
                proof {
                    assert(entry_keys(self.entries@)[i as int] == workspace_id@);
                }
                self.current = Some(workspace_id);
            },
            None => {},
        }
    }

    pub fn get_current(&self) -> (r: Option<&Workspace>)
        ensures
            r is Some <==> current_workspace(self@) is Some,
            r matches Some(w) ==> current_workspace(self@) == Some(w@),
    {
        match &self.current {
            Some(id) => {
                proof {
                    use_type_invariant(self);
                    lemma_entries_map_dom(self.entries@, id@);
                }
                match find_entry(&self.entries, id) {
                    Some(i) => {
                        proof {
                            lemma_entries_map_at(self.entries@, i as int);
                        }
                        Some(&self.entries[i].workspace)
                    },
                    None => None,
                }
            },
            None => None,
        }
    }
}

impl WorkspaceRegistry {
    /// Collects the workspaces of the enabled plugins, then adds each enabled
    /// plugin's panels to the existing workspaces they name (once each).
    /// Requests for workspaces that no enabled plugin declares are ignored.
    pub fn from_plugins(plugins: &PluginRegistry) -> (r: Self)
        ensures
            r@.workspaces == assembled_workspaces(plugins.plugins@),
            r@.current is None,
    {
        let ghost ps = plugins.plugins@;
        let n = plugins.plugins.len();
        let mut es: Vec<Entry> = Vec::new();
        assert(entry_keys(es@) =~= Seq::<Seq<char>>::empty());
        let mut i: usize = 0;
        while i < n
            invariant
                n == ps.len(),
                ps == plugins.plugins@,
                i <= n,
                entry_keys(es@).no_duplicates(),
                entries_map(es@) == declare_plugins(ps, i as int),
            decreases n - i,
        {
            let p = &plugins.plugins[i];
            if p.is_enabled {
                let ghost m0 = declare_plugins(ps, i as int);
                let mut j: usize = 0;
                while j < p.workspaces.len()
                    invariant
                        *p == ps[i as int],
                        j <= p.workspaces@.len(),
                        entry_keys(es@).no_duplicates(),
                        entries_map(es@) == declare_workspaces(m0, *p, j as int),
                    decreases p.workspaces@.len() - j,
                {
                    let ws = &p.workspaces[j];
                    let id = ResourceId::workspace(p.name.as_str(), ws.name.as_str());
                    upsert(&mut es, id, ws.duplicate());
                    j = j + 1;
                }
            }
            i = i + 1;
        }
        let ghost declared = declare_plugins(ps, n as int);
        let mut i: usize = 0;
        while i < n
            invariant
                n == ps.len(),
                ps == plugins.plugins@,
                i <= n,
                declared == declare_plugins(ps, ps.len() as int),
                entry_keys(es@).no_duplicates(),
                entries_map(es@) == claim_plugins(declared, ps, i as int),
            decreases n - i,
        {
            let p = &plugins.plugins[i];
            if p.is_enabled {
                let ghost m0 = claim_plugins(declared, ps, i as int);
                let mut j: usize = 0;
                while j < p.panels.len()
                    invariant
                        *p == ps[i as int],
                        j <= p.panels@.len(),
                        entry_keys(es@).no_duplicates(),
                        entries_map(es@) == claim_for_plugin(m0, *p, j as int),
                    decreases p.panels@.len() - j,
                {
                    let q = &p.panels[j];
                    let pid = ResourceId::panel(p.name.as_str(), q.name.as_str());
                    let ghost m1 = claim_for_plugin(m0, *p, j as int);
                    let mut k: usize = 0;
                    while k < q.workspaces.len()
                        invariant
                            *q == p.panels@[j as int],
                            pid@ == panel_key(p.name@, q.name@),
                            k <= q.workspaces@.len(),
                            entry_keys(es@).no_duplicates(),
                            entries_map(es@) == claim_for_panel(m1, pid@, *q, k as int),
                        decreases q.workspaces@.len() - k,
                    {
                        add_panel_to(&mut es, &q.workspaces[k], &pid);
                        k = k + 1;
                    }
                    j = j + 1;
                }
            }
            i = i + 1;
        }
        WorkspaceRegistry { entries: es, current: None }
    }
}

impl Clone for WorkspaceRegistry {
    fn clone(&self) -> (r: Self)
        ensures
            r@ == self@,
    {
        proof {
            use_type_invariant(self);
        }
        let mut es: Vec<Entry> = Vec::new();
        let mut i: usize = 0;
        while i < self.entries.len()
            invariant
                i <= self.entries@.len(),
                es@.len() == i,
                forall|j: int|
                    0 <= j < i ==> (#[trigger] es@[j]).id@ == self.entries@[j].id@
                        && es@[j].workspace@ == self.entries@[j].workspace@,
            decreases self.entries@.len() - i,
        {
            let e = &self.entries[i];
            es.push(Entry { id: e.id.duplicate(), workspace: e.workspace.duplicate() });
            i = i + 1;
        }
        proof {
            lemma_entries_same_view(es@, self.entries@);
        }
        let current = match &self.current {
            Some(c) => Some(c.duplicate()),
            None => None,
        };
        WorkspaceRegistry { entries: es, current }
    }
}

impl Default for WorkspaceRegistry {
    fn default() -> (r: Self)
        ensures
            r@.workspaces == Map::<Seq<char>, WorkspaceView>::empty(),
            r@.current is None,
    {
        let r = WorkspaceRegistry { entries: Vec::new(), current: None };
        assert(entry_keys(r.entries@) =~= Seq::<Seq<char>>::empty());
        r
    }
}

/// Law: once a registered workspace is made current, it is the workspace that
/// the registry reports as current.
pub proof fn law_current_after_set_current(v: RegistryView, id: Seq<char>)
    requires
        v.workspaces.contains_key(id),
    ensures
        current_workspace(after_set_current(v, id)) == Some(v.workspaces[id]),
{
}

/// Law: asking for an unregistered workspace to become current changes nothing.
pub proof fn law_set_current_unknown_is_noop(v: RegistryView, id: Seq<char>)
    requires
        !v.workspaces.contains_key(id),
    ensures
        after_set_current(v, id) == v,
{
}

} // verus!
