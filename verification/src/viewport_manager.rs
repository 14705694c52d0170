use vstd::prelude::*;
use vstd::string::*;

use crate::config::ViewportConfig;

verus! {

/// How much of the CPU a provider takes: below 5 %, 5 to 15 %, above 15 %.
#[derive(Clone, Copy, Debug, PartialEq, Eq, Structural)]
pub enum CpuOverhead {
    Low,
    Medium,
    High,
}

/// What the editor knows of a viewport provider: how it is named and
/// described, whether this platform supports it, and how it performs.
pub struct ProviderInfo {
    pub id: String,
    pub name: String,
    pub description: String,
    pub is_supported: bool,
    pub estimated_fps: u32,
    pub cpu_overhead: CpuOverhead,
}

/// A provider as plain values.
pub struct ProviderView {
    pub id: Seq<char>,
    pub name: Seq<char>,
    pub description: Seq<char>,
    pub is_supported: bool,
    pub estimated_fps: u32,
    pub cpu_overhead: CpuOverhead,
}

impl View for ProviderInfo {
    type V = ProviderView;

    open spec fn view(&self) -> ProviderView {
        ProviderView {
            id: self.id@,
            name: self.name@,
            description: self.description@,
            is_supported: self.is_supported,
            estimated_fps: self.estimated_fps,
            cpu_overhead: self.cpu_overhead,
        }
    }
}

/// The registered providers in order, the index of the active one, and the
/// configuration a provider is started with.
pub struct ManagerView {
    pub providers: Seq<ProviderView>,
    pub active: Option<usize>,
    pub config: ViewportConfig,
}

/// The providers fit in memory, and the active index, when there is one,
/// names a registered provider.
pub open spec fn manager_valid(v: ManagerView) -> bool {
    &&& v.providers.len() <= usize::MAX
    &&& v.active matches Some(i) ==> i < v.providers.len()
}

/// Provider `j` is the first of `ps` whose identifier is `id`.
pub open spec fn is_first_with_id(ps: Seq<ProviderView>, id: Seq<char>, j: int) -> bool {
    &&& 0 <= j < ps.len()
    &&& ps[j].id == id
    &&& forall|k: int| 0 <= k < j ==> (#[trigger] ps[k]).id != id
}

/// Some provider of `ps` has the identifier `id`.
pub open spec fn has_id(ps: Seq<ProviderView>, id: Seq<char>) -> bool {
    exists|j: int| 0 <= j < ps.len() && (#[trigger] ps[j]).id == id
}

/// The index of the first provider of `ps` with the identifier `id`.
pub open spec fn first_with_id(ps: Seq<ProviderView>, id: Seq<char>) -> Option<usize> {
    if has_id(ps, id) {
        Some(choose|j: usize| is_first_with_id(ps, id, j as int))
    } else {
        None
    }
}

/// The steps of a switch of provider: the provider to shut down first (the
/// active one), and the provider to start (the first with the requested
/// identifier, `None` when there is none).
#[derive(Clone, Copy, Debug, PartialEq, Eq, Structural)]
pub struct SwitchPlan {
    pub shutdown: Option<usize>,
    pub target: Option<usize>,
}

/// The plan for switching `v` to the provider `id`.
pub open spec fn switch_plan(v: ManagerView, id: Seq<char>) -> SwitchPlan {
    SwitchPlan { shutdown: v.active, target: first_with_id(v.providers, id) }
}

/// Why a switch of provider failed.
#[derive(Clone, Copy, Debug, PartialEq, Eq, Structural)]
pub enum SwitchError {
    /// The active provider failed to shut down.
    ShutdownFailed,
    /// No provider has the requested identifier.
    NotFound,
    /// The requested provider failed to start.
    InitFailed,
}

/// A switch succeeds when the shutdown (if any) and the start both succeed
/// and the requested provider exists.
pub open spec fn switch_succeeds(plan: SwitchPlan, shutdown_ok: bool, init_ok: bool) -> bool {
    &&& (plan.shutdown is None || shutdown_ok)
    &&& plan.target is Some
    &&& init_ok
}

/// The error of a failed switch: the first step that failed, in the order
/// shutdown, lookup, start.
pub open spec fn switch_error(plan: SwitchPlan, shutdown_ok: bool) -> SwitchError {
    if plan.shutdown is Some && !shutdown_ok {
        SwitchError::ShutdownFailed
    } else if plan.target is None {
        SwitchError::NotFound
    } else {
        SwitchError::InitFailed
    }
}

/// The manager after a switch along `plan`: the target becomes active on
/// success, and nothing changes otherwise.
pub open spec fn after_switch(v: ManagerView, plan: SwitchPlan, shutdown_ok: bool, init_ok: bool) -> ManagerView {
    if switch_succeeds(plan, shutdown_ok, init_ok) {
        ManagerView { providers: v.providers, active: plan.target, config: v.config }
    } else {
        v
    }
}

/// The identifier of the active provider, if one is active.
pub open spec fn active_id(v: ManagerView) -> Option<Seq<char>> {
    match v.active {
        Some(a) => if a < v.providers.len() {
            Some(v.providers[a as int].id)
        } else {
            None
        },
        None => None,
    }
}

/// The rows of the provider settings, in order: each supported provider's
/// index, and whether it is in use, that is whether its identifier is the
/// identifier `active` of the active provider.
pub open spec fn supported_rows(ps: Seq<ProviderView>, active: Option<Seq<char>>) -> Seq<(usize, bool)>
    decreases ps.len(),
{
    if ps.len() == 0 {
        Seq::empty()
    } else {
        let rest = supported_rows(ps.drop_last(), active);
        let i = (ps.len() - 1) as usize;
        if ps.last().is_supported {
            rest.push((i, active == Some(ps.last().id)))
        } else {
            rest
        }
    }
}

proof fn lemma_first_with_id(ps: Seq<ProviderView>, id: Seq<char>, j: usize)
    requires
        is_first_with_id(ps, id, j as int),
    ensures
        first_with_id(ps, id) == Some(j),
{
    assert(has_id(ps, id));
    let c = choose|c: usize| is_first_with_id(ps, id, c as int);
    assert(is_first_with_id(ps, id, c as int));
    if c < j {
        assert(ps[c as int].id != id);
    } else if j < c {
        assert(ps[j as int].id != id);
    }
}

/// The shared-memory provider: zero-copy frames at about 120 frames per
/// second; `platform_supported` says whether this platform is Linux or Windows.
pub fn shared_memory_provider_info(platform_supported: bool) -> (r: ProviderInfo)
    ensures
        r@ == (ProviderView {
            id: "shared_memory"@,
            name: "Shared Memory (High Performance)"@,
            description: "Uses shared memory for zero-copy frame transfer. Best performance on Linux."@,
            is_supported: platform_supported,
            estimated_fps: 120,
            cpu_overhead: CpuOverhead::Low,
        }),
{
    ProviderInfo {
        id: String::from_str("shared_memory"),
        name: String::from_str("Shared Memory (High Performance)"),
        description: String::from_str("Uses shared memory for zero-copy frame transfer. Best performance on Linux."),
        is_supported: platform_supported,
        estimated_fps: 120,
        cpu_overhead: CpuOverhead::Low,
    }
}

/// The window-overlay provider: a separate game window, supported everywhere
/// but not recommended, at about 144 frames per second.
pub fn window_overlay_provider_info() -> (r: ProviderInfo)
    ensures
        r@ == (ProviderView {
            id: "window_overlay"@,
            name: "Window Overlay (Legacy)"@,
            description: "Spawns separate game window. Known issues with tiling WMs. Not recommended."@,
            is_supported: true,
            estimated_fps: 144,
            cpu_overhead: CpuOverhead::Low,
        }),
{
    ProviderInfo {
        id: String::from_str("window_overlay"),
        name: String::from_str("Window Overlay (Legacy)"),
        description: String::from_str("Spawns separate game window. Known issues with tiling WMs. Not recommended."),
        is_supported: true,
        estimated_fps: 144,
        cpu_overhead: CpuOverhead::Low,
    }
}

/// Chooses, starts and stops the viewport providers.
pub struct ViewportManager {
    providers: Vec<ProviderInfo>,
    active: Option<usize>,
    config: ViewportConfig,
}

impl View for ViewportManager {
    type V = ManagerView;

    closed spec fn view(&self) -> ManagerView {
        ManagerView {
            providers: self.providers@.map_values(|p: ProviderInfo| p@),
            active: self.active,
            config: self.config,
        }
    }
}

impl ViewportManager {
    /// A manager with no provider, none active, starting providers with `config`.
    pub fn new(config: ViewportConfig) -> (r: Self)
        ensures
            r@.providers.len() == 0,
            r@.active is None,
            r@.config == config,
            manager_valid(r@),
    {
        let r = ViewportManager { providers: Vec::new(), active: None, config };
        assert(r@.providers =~= Seq::<ProviderView>::empty());
        r
    }

    /// Appends a provider; which one is active does not change.
    pub fn register_provider(&mut self, provider: ProviderInfo)
        ensures
            final(self)@.providers == old(self)@.providers.push(provider@),
            final(self)@.active == old(self)@.active,
            final(self)@.config == old(self)@.config,
            manager_valid(old(self)@) ==> manager_valid(final(self)@),
    {
        let ghost before = self.providers@;
        self.providers.push(provider);
        let _count = self.providers.len();
        assert(self.providers@.map_values(|p: ProviderInfo| p@) =~= before.map_values(
            |p: ProviderInfo| p@,
        ).push(provider@));
    }

    /// The number of registered providers.
    pub fn provider_count(&self) -> (r: usize)
        ensures
            r == self@.providers.len(),
    {
        self.providers.len()
    }

    /// The provider at index `i`.
    pub fn get_provider(&self, i: usize) -> (r: &ProviderInfo)
        requires
            i < self@.providers.len(),
        ensures
            r@ == self@.providers[i as int],
    {
        &self.providers[i]
    }

    /// The index of the active provider.
    pub fn get_active_provider(&self) -> (r: Option<usize>)
        ensures
            r == self@.active,
    {
        self.active
    }

    /// The configuration providers are started with.
    pub fn config(&self) -> (r: &ViewportConfig)
        ensures
            *r == self@.config,
    {
        &self.config
    }

    /// The indices of the providers this platform supports, in order.
    pub fn get_supported_providers(&self) -> (r: Vec<usize>)
        ensures
            r@ == supported_rows(self@.providers, active_id(self@)).map_values(|row: (usize, bool)| row.0),
    {
        let rows = self.settings_rows();
        let mut r: Vec<usize> = Vec::new();
        let mut k: usize = 0;
        while k < rows.len()
            invariant
                k <= rows@.len(),
                r@ == rows@.take(k as int).map_values(|row: (usize, bool)| row.0),
            decreases rows@.len() - k,
        {
            r.push(rows[k].0);
            k = k + 1;
            assert(r@ =~= rows@.take(k as int).map_values(|row: (usize, bool)| row.0));
        }
        assert(rows@.take(k as int) =~= rows@);
        r
    }

    /// What the provider settings list: each supported provider's index, in
    /// order, and whether it is in use, that is whether it has the active
    /// provider's identifier (every provider sharing that identifier is).
    pub fn settings_rows(&self) -> (r: Vec<(usize, bool)>)
        ensures
            r@ == supported_rows(self@.providers, active_id(self@)),
    {
        let ghost ps = self@.providers;
        let mut r: Vec<(usize, bool)> = Vec::new();
        let mut i: usize = 0;
        assert(ps.take(0) =~= Seq::<ProviderView>::empty());
        while i < self.providers.len()
            invariant
                i <= self.providers@.len(),
                ps == self@.providers,
                ps.len() == self.providers@.len(),
                r@ == supported_rows(ps.take(i as int), active_id(self@)),
            decreases self.providers@.len() - i,
        {
            let ghost next = ps.take(i as int + 1);
            assert(next.drop_last() =~= ps.take(i as int));
            assert(next.last() == ps[i as int]);
            assert(ps[i as int] == self.providers@[i as int]@);
            if self.providers[i].is_supported {
                let is_active = match self.active {
                    Some(a) => {
                        if a < self.providers.len() {
                            assert(ps[a as int] == self.providers@[a as int]@);
                            self.providers[a].id == self.providers[i].id
                        } else {
                            false
                        }
                    },
                    None => false,
                };
                r.push((i, is_active));
            }
            i = i + 1;
        }
        assert(ps.take(i as int) =~= ps);
        r
    }

    /// The index of the first provider whose identifier is `id`.
    pub fn find_provider(&self, id: &str) -> (r: Option<usize>)
        ensures
            r == first_with_id(self@.providers, id@),
            r matches Some(j) ==> j < self@.providers.len(),
    {
        let ghost ps = self@.providers;
        let key = String::from_str(id);
        let mut i: usize = 0;
        while i < self.providers.len()
            invariant
                i <= self.providers@.len(),
                ps == self@.providers,
                ps.len() == self.providers@.len(),
                key@ == id@,
                forall|k: int| 0 <= k < i ==> (#[trigger] ps[k]).id != id@,
            decreases self.providers@.len() - i,
        {
            assert(ps[i as int] == self.providers@[i as int]@);
            if self.providers[i].id == key {
                proof {
                    lemma_first_with_id(ps, id@, i);
                }
                return Some(i);
            }
            i = i + 1;
        }
        proof {
            if has_id(ps, id@) {
                let j = choose|j: int| 0 <= j < ps.len() && (#[trigger] ps[j]).id == id@;
                assert(ps[j].id != id@);
            }
        }
        None
    }

    /// The steps of switching to the provider `id`: shut down the active
    /// provider, then start the first provider with that identifier.
    pub fn plan_switch(&self, id: &str) -> (r: SwitchPlan)
        ensures
            r == switch_plan(self@, id@),
            r.target matches Some(j) ==> j < self@.providers.len(),
    {
        let target = self.find_provider(id);
        SwitchPlan { shutdown: self.active, target }
    }

    /// Records how a switch along `plan` went: the target becomes active when
    /// the shutdown (if any) and the start succeeded; otherwise the manager is
    /// unchanged and the first failed step is reported.
    pub fn finish_switch(&mut self, plan: SwitchPlan, shutdown_ok: bool, init_ok: bool) -> (r: Result<(), SwitchError>)
        requires
            plan.shutdown == old(self)@.active,
            plan.target matches Some(j) ==> j < old(self)@.providers.len(),
        ensures
            final(self)@ == after_switch(old(self)@, plan, shutdown_ok, init_ok),
            r is Ok <==> switch_succeeds(plan, shutdown_ok, init_ok),
            r matches Err(e) ==> e == switch_error(plan, shutdown_ok),
            manager_valid(old(self)@) ==> manager_valid(final(self)@),
    {
        if plan.shutdown.is_some() && !shutdown_ok {
            return Err(SwitchError::ShutdownFailed);
        }
        match plan.target {
            None => Err(SwitchError::NotFound),
            Some(j) => {
                if init_ok {
                    self.active = Some(j);
                    Ok(())
                } else {
                    Err(SwitchError::InitFailed)
                }
            },
        }
    }
}

/// Law: a switch that succeeds leaves active the first provider with the
/// requested identifier, and changes nothing else.
pub proof fn law_switch_activates_requested(
    v: ManagerView,
    id: Seq<char>,
    shutdown_ok: bool,
    init_ok: bool,
)
    requires
        manager_valid(v),
        switch_succeeds(switch_plan(v, id), shutdown_ok, init_ok),
    ensures
        ({
            let w = after_switch(v, switch_plan(v, id), shutdown_ok, init_ok);
            &&& w.active matches Some(j) && is_first_with_id(v.providers, id, j as int)
            &&& w.providers == v.providers
            &&& w.config == v.config
            &&& manager_valid(w)
        }),
{
    let j = choose|j: usize| is_first_with_id(v.providers, id, j as int);
    assert(has_id(v.providers, id));
    let w = choose|w: int| 0 <= w < v.providers.len() && (#[trigger] v.providers[w]).id == id;
    assert(exists|j: usize| is_first_with_id(v.providers, id, j as int)) by {
        lemma_exists_first(v.providers, id, w);
    }
}

proof fn lemma_exists_first(ps: Seq<ProviderView>, id: Seq<char>, w: int)
    requires
        0 <= w < ps.len(),
        ps.len() <= usize::MAX,
        ps[w].id == id,
    ensures
        exists|j: usize| is_first_with_id(ps, id, j as int),
    decreases w,
{
    if exists|k: int| 0 <= k < w && (#[trigger] ps[k]).id == id {
        let k = choose|k: int| 0 <= k < w && (#[trigger] ps[k]).id == id;
        lemma_exists_first(ps, id, k);
    } else {
        assert(is_first_with_id(ps, id, (w as usize) as int));
    }
}

/// Law: a switch that fails, at whatever step, leaves the manager as it was.
pub proof fn law_failed_switch_changes_nothing(
    v: ManagerView,
    id: Seq<char>,
    shutdown_ok: bool,
    init_ok: bool,
)
    requires
        !switch_succeeds(switch_plan(v, id), shutdown_ok, init_ok),
    ensures
        after_switch(v, switch_plan(v, id), shutdown_ok, init_ok) == v,
{
}

/// Law: asking for an identifier that no provider has fails with `NotFound`
/// unless the active provider first failed to shut down.
pub proof fn law_unknown_provider_not_found(v: ManagerView, id: Seq<char>, shutdown_ok: bool, init_ok: bool)
    requires
        !has_id(v.providers, id),
        v.active is None || shutdown_ok,
    ensures
        !switch_succeeds(switch_plan(v, id), shutdown_ok, init_ok),
        switch_error(switch_plan(v, id), shutdown_ok) == SwitchError::NotFound,
{
}

} // verus!
