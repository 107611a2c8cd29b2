//! What the shell knows of the compositor: its workspaces and the title of
//! the focused window, and how each supported compositor's events update it.

pub mod hyprland;
pub mod mock;
pub mod niri;

use std::path::PathBuf;
use vstd::prelude::*;

use crate::ipc::hyprland::HyprlandIpc;
use crate::ipc::mock::MockIpc;
use crate::ipc::niri::NiriIpc;

verus! {

/// The compositor connection the shell uses.
pub enum CompositorChoice {
    Niri(NiriIpc),
    Hyprland(HyprlandIpc),
    Mock(MockIpc),
}

/// Picks the compositor connection: niri when its socket was found, else
/// Hyprland when its instance signature is set, else the stand-in that
/// cycles through fixed states.
pub fn choose_compositor(niri_socket: Option<PathBuf>, hyprland_signature: Option<String>) -> (c:
    CompositorChoice)
    ensures
        match niri_socket {
            Some(p) => c matches CompositorChoice::Niri(n) && n.socket_path == Some(p),
            None => match hyprland_signature {
                Some(s) => c matches CompositorChoice::Hyprland(h) && h.instance_signature@ == s@,
                None => c is Mock,
            },
        },
{
    match niri_socket {
        Some(p) => CompositorChoice::Niri(NiriIpc { socket_path: Some(p) }),
        None => match hyprland_signature {
            Some(s) => CompositorChoice::Hyprland(HyprlandIpc { instance_signature: s }),
            None => CompositorChoice::Mock(MockIpc),
        },
    }
}

/// The text of an optional string.
pub open spec fn opt_view(o: Option<String>) -> Option<Seq<char>> {
    match o {
        Some(s) => Some(s@),
        None => None,
    }
}

/// A copy of an optional string.
pub fn clone_opt_string(o: &Option<String>) -> (r: Option<String>)
    ensures
        r == *o,
{
    match o {
        Some(s) => Some(s.clone()),
        None => None,
    }
}

/// One workspace as the bar shows it.
#[derive(Debug)]
pub struct WorkspaceInfo {
    pub id: String,
    pub name: String,
    pub is_active: bool,
    pub is_focused: bool,
    pub is_empty: bool,
}

/// The abstract value of a [`WorkspaceInfo`].
pub struct WorkspaceView {
    pub id: Seq<char>,
    pub name: Seq<char>,
    pub is_active: bool,
    pub is_focused: bool,
    pub is_empty: bool,
}

impl View for WorkspaceInfo {
    type V = WorkspaceView;

    open spec fn view(&self) -> WorkspaceView {
        WorkspaceView {
            id: self.id@,
            name: self.name@,
            is_active: self.is_active,
            is_focused: self.is_focused,
            is_empty: self.is_empty,
        }
    }
}

impl Clone for WorkspaceInfo {
    fn clone(&self) -> (r: Self)
        ensures
            r == *self,
    {
        WorkspaceInfo {
            id: self.id.clone(),
            name: self.name.clone(),
            is_active: self.is_active,
            is_focused: self.is_focused,
            is_empty: self.is_empty,
        }
    }
}

impl PartialEq for WorkspaceInfo {
    fn eq(&self, other: &Self) -> (r: bool) {
        self.id == other.id && self.name == other.name && self.is_active == other.is_active
            && self.is_focused == other.is_focused && self.is_empty == other.is_empty
    }
}

impl vstd::std_specs::cmp::PartialEqSpecImpl for WorkspaceInfo {
    open spec fn obeys_eq_spec() -> bool {
        true
    }

    open spec fn eq_spec(&self, other: &Self) -> bool {
        self@ == other@
    }
}

/// The views of a sequence of workspaces.
pub open spec fn workspace_views(ws: Seq<WorkspaceInfo>) -> Seq<WorkspaceView> {
    ws.map_values(|w: WorkspaceInfo| w@)
}

/// A copy of a list of workspaces.
pub fn clone_workspaces(ws: &Vec<WorkspaceInfo>) -> (r: Vec<WorkspaceInfo>)
    ensures
        r@ == ws@,
{
    let mut r: Vec<WorkspaceInfo> = Vec::new();
    for i in 0..ws.len()
        invariant
            r@ == ws@.take(i as int),
    {
        r.push(ws[i].clone());
        assert(r@ =~= ws@.take(i + 1));
    }
    assert(ws@.take(ws@.len() as int) =~= ws@);
    r
}

/// The compositor state the bar follows.
#[derive(Debug)]
pub struct CompositorState {
    pub workspaces: Vec<WorkspaceInfo>,
    pub active_window_title: Option<String>,
}

/// The abstract value of a [`CompositorState`].
pub struct CompositorStateView {
    pub workspaces: Seq<WorkspaceView>,
    pub active_window_title: Option<Seq<char>>,
}

impl View for CompositorState {
    type V = CompositorStateView;

    open spec fn view(&self) -> CompositorStateView {
        CompositorStateView {
            workspaces: workspace_views(self.workspaces@),
            active_window_title: opt_view(self.active_window_title),
        }
    }
}

impl Clone for CompositorState {
    fn clone(&self) -> (r: Self)
        ensures
            r@ == self@,
    {
        let ws = clone_workspaces(&self.workspaces);
        CompositorState {
            workspaces: ws,
            active_window_title: clone_opt_string(&self.active_window_title),
        }
    }
}

/// A change of the compositor state, as the compositor connections report it.
#[derive(Debug)]
pub enum CompositorEvent {
    StateChanged(CompositorState),
}

impl Clone for CompositorEvent {
    fn clone(&self) -> (r: Self)
        ensures
            r->StateChanged_0@ == self->StateChanged_0@,
    {
        match self {
            CompositorEvent::StateChanged(s) => CompositorEvent::StateChanged(s.clone()),
        }
    }
}

} // verus!
