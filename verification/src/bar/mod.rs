//! The bar: its state, and the configured modules resolved against that
//! state, in configured order and grouped by alignment.
//!
//! The system readings (processor and memory load, battery charge) are
//! carried as an opaque value `M` that the library stores and hands back
//! without inspecting it.

pub mod sysinfo;

use vstd::prelude::*;

use crate::config::{BarConfig, BarModuleConfig, BarModuleConfigAlign, BarModuleConfigType};
use crate::ipc::{
    WorkspaceInfo,
    WorkspaceView,
    clone_opt_string,
    clone_workspaces,
    opt_view,
    workspace_views,
};

verus! {

/// The abstract value of a [`BarModuleConfig`].
pub struct BarModuleConfigView {
    pub module_type: BarModuleConfigType,
    pub id: Option<Seq<char>>,
    pub align: BarModuleConfigAlign,
}

impl View for BarModuleConfig {
    type V = BarModuleConfigView;

    open spec fn view(&self) -> BarModuleConfigView {
        BarModuleConfigView { module_type: self.module_type, id: opt_view(self.id), align: self.align }
    }
}

/// Everything the bar shows.
#[derive(Debug, Clone)]
pub struct BarState<M> {
    pub workspaces: Vec<WorkspaceInfo>,
    pub active_window_title: Option<String>,
    pub time_str: String,
    pub readings: M,
    pub battery_charging: bool,
}

/// The abstract value of a [`BarState`].
pub struct BarStateView<M> {
    pub workspaces: Seq<WorkspaceView>,
    pub active_window_title: Option<Seq<char>>,
    pub time_str: Seq<char>,
    pub readings: M,
    pub battery_charging: bool,
}

impl<M> View for BarState<M> {
    type V = BarStateView<M>;

    open spec fn view(&self) -> BarStateView<M> {
        BarStateView {
            workspaces: workspace_views(self.workspaces@),
            active_window_title: opt_view(self.active_window_title),
            time_str: self.time_str@,
            readings: self.readings,
            battery_charging: self.battery_charging,
        }
    }
}

impl<M: Default> Default for BarState<M> {
    fn default() -> (s: Self)
        ensures
            s@.workspaces.len() == 0,
            s@.active_window_title is None,
            s@.time_str == "00:00:00"@,
            !s@.battery_charging,
    {
        BarState {
            workspaces: Vec::new(),
            active_window_title: None,
            time_str: String::from_str("00:00:00"),
            readings: M::default(),
            battery_charging: false,
        }
    }
}

/// What a module shows.
#[derive(Debug, Clone)]
pub enum ModuleValue<M> {
    Workspaces(Vec<WorkspaceInfo>),
    Title(Option<String>),
    SystemInfo { time_str: String, readings: M, battery_charging: bool },
    /// Plugin modules are not fed live data yet; the module still resolves so
    /// that layout can reserve space for it.
    Plugin { id: Option<String> },
}

/// The abstract value of a [`ModuleValue`].
pub enum ModuleValueView<M> {
    Workspaces(Seq<WorkspaceView>),
    Title(Option<Seq<char>>),
    SystemInfo { time_str: Seq<char>, readings: M, battery_charging: bool },
    Plugin { id: Option<Seq<char>> },
}

impl<M> View for ModuleValue<M> {
    type V = ModuleValueView<M>;

    open spec fn view(&self) -> ModuleValueView<M> {
        match self {
            ModuleValue::Workspaces(ws) => ModuleValueView::Workspaces(workspace_views(ws@)),
            ModuleValue::Title(t) => ModuleValueView::Title(opt_view(*t)),
            ModuleValue::SystemInfo { time_str, readings, battery_charging } =>
                ModuleValueView::SystemInfo {
                time_str: time_str@,
                readings: *readings,
                battery_charging: *battery_charging,
            },
            ModuleValue::Plugin { id } => ModuleValueView::Plugin { id: opt_view(*id) },
        }
    }
}

/// A configured module, resolved against the current state.
#[derive(Debug, Clone)]
pub struct ResolvedModule<M> {
    pub config: BarModuleConfig,
    pub value: ModuleValue<M>,
}

/// The abstract value of a [`ResolvedModule`].
pub struct ResolvedModuleView<M> {
    pub config: BarModuleConfigView,
    pub value: ModuleValueView<M>,
}

impl<M> View for ResolvedModule<M> {
    type V = ResolvedModuleView<M>;

    open spec fn view(&self) -> ResolvedModuleView<M> {
        ResolvedModuleView { config: self.config@, value: self.value@ }
    }
}

/// The views of a sequence of resolved modules.
pub open spec fn module_views<M>(ms: Seq<ResolvedModule<M>>) -> Seq<ResolvedModuleView<M>> {
    ms.map_values(|m: ResolvedModule<M>| m@)
}

/// A configured module resolved against the state `s`.
pub open spec fn resolve<M>(s: BarStateView<M>, c: BarModuleConfigView) -> ResolvedModuleView<M> {
    ResolvedModuleView {
        config: c,
        value: match c.module_type {
            BarModuleConfigType::Workspaces => ModuleValueView::Workspaces(s.workspaces),
            BarModuleConfigType::Title => ModuleValueView::Title(s.active_window_title),
            BarModuleConfigType::SystemInfo => ModuleValueView::SystemInfo {
                time_str: s.time_str,
                readings: s.readings,
                battery_charging: s.battery_charging,
            },
            BarModuleConfigType::Plugin => ModuleValueView::Plugin { id: c.id },
        },
    }
}

/// All configured modules resolved against `s`, in configured order.
pub open spec fn resolve_all<M>(s: BarStateView<M>, cs: Seq<BarModuleConfigView>) -> Seq<
    ResolvedModuleView<M>,
> {
    cs.map_values(|c: BarModuleConfigView| resolve(s, c))
}

/// The modules of `ms` with alignment `a`, in their order in `ms`.
pub open spec fn with_align<M>(ms: Seq<ResolvedModuleView<M>>, a: BarModuleConfigAlign) -> Seq<
    ResolvedModuleView<M>,
>
    decreases ms.len(),
{
    if ms.len() == 0 {
        seq![]
    } else if ms.last().config.align == a {
        with_align(ms.drop_last(), a).push(ms.last())
    } else {
        with_align(ms.drop_last(), a)
    }
}

/// The bar's state and configuration.
pub struct BarManager<M> {
    pub state: BarState<M>,
    pub config: BarConfig,
}

impl<M: Copy> BarManager<M> {
    /// A bar in its initial state.
    pub fn new(bar_config: BarConfig) -> (b: Self)
        where M: Default,
        ensures
            b.config == bar_config,
            b.state@.workspaces.len() == 0,
            b.state@.active_window_title is None,
            b.state@.time_str == "00:00:00"@,
            !b.state@.battery_charging,
    {
        BarManager { state: BarState::default(), config: bar_config }
    }

    /// Takes the workspaces and focused window title reported by the compositor.
    pub fn update_from_compositor(
        &mut self,
        workspaces: Vec<WorkspaceInfo>,
        title: Option<String>,
    )
        ensures
            final(self).state@ == (BarStateView {
                workspaces: workspace_views(workspaces@),
                active_window_title: opt_view(title),
                ..old(self).state@
            }),
            final(self).config == old(self).config,
    {
        self.state.workspaces = workspaces;
        self.state.active_window_title = title;
    }

    /// The configured modules resolved against the current state, in configured order.
    pub fn visible_modules(&self) -> (r: Vec<ResolvedModule<M>>)
        ensures
            module_views(r@) == resolve_all(
                self.state@,
                self.config.modules@.map_values(|c: BarModuleConfig| c@),
            ),
    {
        let ghost target = resolve_all(
            self.state@,
            self.config.modules@.map_values(|c: BarModuleConfig| c@),
        );
        let mut r: Vec<ResolvedModule<M>> = Vec::new();
        for i in 0..self.config.modules.len()
            invariant
                target == resolve_all(
                    self.state@,
                    self.config.modules@.map_values(|c: BarModuleConfig| c@),
                ),
                module_views(r@) == target.take(i as int),
        {
            let c = &self.config.modules[i];
            let value = match c.module_type {
                BarModuleConfigType::Workspaces => ModuleValue::Workspaces(
                    clone_workspaces(&self.state.workspaces),
                ),
                BarModuleConfigType::Title => ModuleValue::Title(
                    clone_opt_string(&self.state.active_window_title),
                ),
                BarModuleConfigType::SystemInfo => ModuleValue::SystemInfo {
                    time_str: self.state.time_str.clone(),
                    readings: self.state.readings,
                    battery_charging: self.state.battery_charging,
                },
                BarModuleConfigType::Plugin => ModuleValue::Plugin { id: clone_opt_string(&c.id) },
            };
            let m = ResolvedModule { config: c.clone(), value };
            assert(m@ == target[i as int]);
            let ghost old_r = r@;
            r.push(m);
            assert(module_views(r@) =~= module_views(old_r).push(m@));
            assert(module_views(r@) =~= target.take(i + 1));
        }
        assert(target.take(self.config.modules@.len() as int) =~= target);
        r
    }

    /// The visible modules split into the start, center and end groups, each
    /// in configured order.
    pub fn modules_by_alignment(&self) -> (r: (
        Vec<ResolvedModule<M>>,
        Vec<ResolvedModule<M>>,
        Vec<ResolvedModule<M>>,
    ))
        ensures
            ({
                let all = resolve_all(
                    self.state@,
                    self.config.modules@.map_values(|c: BarModuleConfig| c@),
                );
                &&& module_views(r.0@) == with_align(all, BarModuleConfigAlign::Start)
                &&& module_views(r.1@) == with_align(all, BarModuleConfigAlign::Center)
                &&& module_views(r.2@) == with_align(all, BarModuleConfigAlign::End)
            }),
    {
        let mut start: Vec<ResolvedModule<M>> = Vec::new();
        let mut center: Vec<ResolvedModule<M>> = Vec::new();
        let mut end: Vec<ResolvedModule<M>> = Vec::new();
        let all = self.visible_modules();
        let ghost av = module_views(all@);
        for module in it: all
            invariant
                it.seq() == all@,
                av == module_views(all@),
                module_views(start@) == with_align(av.take(it.index()), BarModuleConfigAlign::Start),
                module_views(center@) == with_align(
                    av.take(it.index()),
                    BarModuleConfigAlign::Center,
                ),
                module_views(end@) == with_align(av.take(it.index()), BarModuleConfigAlign::End),
        {
            let ghost i = it.index();
            let ghost mv = module@;
            assert(av.take(i + 1).drop_last() =~= av.take(i));
            assert(av.take(i + 1).last() == mv);
            let ghost (s0, c0, e0) = (start@, center@, end@);
            match module.config.align {
                BarModuleConfigAlign::Start => {
                    start.push(module);
                    assert(module_views(start@) =~= module_views(s0).push(mv));
                },
                BarModuleConfigAlign::Center => {
                    center.push(module);
                    assert(module_views(center@) =~= module_views(c0).push(mv));
                },
                BarModuleConfigAlign::End => {
                    end.push(module);
                    assert(module_views(end@) =~= module_views(e0).push(mv));
                },
            }
        }
        assert(av.take(av.len() as int) =~= av);
        (start, center, end)
    }
}

/// Splitting by alignment loses and duplicates nothing: the three groups
/// together hold exactly the modules, and each group holds only modules of
/// its alignment.
pub proof fn lemma_alignment_partition<M>(ms: Seq<ResolvedModuleView<M>>)
    ensures
        with_align(ms, BarModuleConfigAlign::Start).len() + with_align(
            ms,
            BarModuleConfigAlign::Center,
        ).len() + with_align(ms, BarModuleConfigAlign::End).len() == ms.len(),
        forall|a: BarModuleConfigAlign, i: int|
            0 <= i < with_align(ms, a).len() ==> (#[trigger] with_align(ms, a)[i]).config.align
                == a,
    decreases ms.len(),
{
    if ms.len() > 0 {
        lemma_alignment_partition(ms.drop_last());
        assert forall|a: BarModuleConfigAlign, i: int|
            0 <= i < with_align(ms, a).len() implies (#[trigger] with_align(
            ms,
            a,
        )[i]).config.align == a by {
            if ms.last().config.align == a && i == with_align(ms, a).len() - 1 {
            } else {
                assert(with_align(ms, a)[i] == with_align(ms.drop_last(), a)[i]);
            }
        }
    }
}

/// Every configured module is resolved exactly once, against the same state,
/// and keeps its configuration.
pub proof fn lemma_resolve_all_keeps_config<M>(s: BarStateView<M>, cs: Seq<BarModuleConfigView>)
    ensures
        resolve_all(s, cs).len() == cs.len(),
        forall|i: int| 0 <= i < cs.len() ==> (#[trigger] resolve_all(s, cs)[i]).config == cs[i],
{
}

/// A resolved module shows the state as it is: a workspace module the
/// state's workspaces, a title module the state's title, a system module the
/// state's clock text, readings and charging flag, each unchanged; a plugin
/// module its configured id. Two states that differ in one of these give
/// modules that differ in it.
pub proof fn lemma_resolve_shows_state<M>(s: BarStateView<M>, c: BarModuleConfigView)
    ensures
        resolve(s, c).config == c,
        c.module_type == BarModuleConfigType::Workspaces ==> (resolve(s, c).value
            matches ModuleValueView::Workspaces(ws) && ws == s.workspaces),
        c.module_type == BarModuleConfigType::Title ==> (resolve(s, c).value
            matches ModuleValueView::Title(t) && t == s.active_window_title),
        c.module_type == BarModuleConfigType::SystemInfo ==> (resolve(s, c).value matches
            ModuleValueView::SystemInfo { time_str, readings, battery_charging } && time_str
            == s.time_str && readings == s.readings && battery_charging == s.battery_charging),
        c.module_type == BarModuleConfigType::Plugin ==> (resolve(s, c).value
            matches ModuleValueView::Plugin { id } && id == c.id),
{
}

} // verus!
