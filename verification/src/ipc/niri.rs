//! niri: the compositor streams events (one JSON value per line) that carry
//! its workspaces and windows; the bar keeps the subset of that state it
//! shows, built up from the event stream alone.

use std::collections::HashMap;
use std::path::PathBuf;
use vstd::prelude::*;

use niri_ipc::Event::{
    WindowClosed,
    WindowFocusChanged,
    WindowOpenedOrChanged,
    WindowsChanged,
    WorkspaceActivated,
    WorkspaceActiveWindowChanged,
    WorkspacesChanged,
};
use niri_ipc::{Reply, Window, Workspace};
use serde_json::from_str;

use crate::ipc::{CompositorState, WorkspaceInfo, WorkspaceView, clone_opt_string, opt_view, workspace_views};
use crate::text::{
    decimal, has_prefix, lemma_decimal_parse_roundtrip, parse_u64_spec, str_chars, string_from, trim,
    trim_bounds, u64_to_string,
};

verus! {

broadcast use vstd::std_specs::hash::group_hash_axioms;

/// Connection settings for a running niri instance.
pub struct NiriIpc {
    pub socket_path: Option<PathBuf>,
}

/// The directory searched for niri's socket when `NIRI_SOCKET` names none:
/// `/run/user/<uid>`.
pub fn run_user_dir(uid: u32) -> (d: String)
    ensures
        d@ == "/run/user/"@ + decimal(uid as nat),
{
    let mut d = String::from_str("/run/user/");
    let n = u64_to_string(uid as u64);
    d.append(n.as_str());
    d
}

/// The first directory entry whose name starts with `niri-ipc`, among the
/// entries of the runtime directory in the order they were listed.
pub fn socket_entry(names: &Vec<String>) -> (r: Option<usize>)
    ensures
        match r {
            Some(i) => i < names@.len() && "niri-ipc"@.is_prefix_of(names@[i as int]@) && forall|
                j: int,
            |
                0 <= j < i ==> !"niri-ipc"@.is_prefix_of(#[trigger] names@[j]@),
            None => forall|j: int|
                0 <= j < names@.len() ==> !"niri-ipc"@.is_prefix_of(#[trigger] names@[j]@),
        },
{
    let key = str_chars("niri-ipc");
    for i in 0..names.len()
        invariant
            key@ == "niri-ipc"@,
            forall|j: int| 0 <= j < i ==> !"niri-ipc"@.is_prefix_of(#[trigger] names@[j]@),
    {
        let v = str_chars(names[i].as_str());
        assert(v@.subrange(0, v@.len() as int) =~= v@);
        if has_prefix(&v, 0, v.len(), &key) {
            return Some(i);
        }
    }
    None
}

/// The parts of a niri workspace that the bar reads.
#[derive(Debug)]
pub struct NiriWorkspace {
    pub id: u64,
    pub idx: u8,
    pub name: Option<String>,
    pub output: Option<String>,
    pub is_active: bool,
    pub is_focused: bool,
    pub active_window_id: Option<u64>,
}

/// The abstract value of a [`NiriWorkspace`].
pub struct NiriWorkspaceView {
    pub id: u64,
    pub idx: u8,
    pub name: Option<Seq<char>>,
    pub output: Option<Seq<char>>,
    pub is_active: bool,
    pub is_focused: bool,
    pub active_window_id: Option<u64>,
}

impl View for NiriWorkspace {
    type V = NiriWorkspaceView;

    open spec fn view(&self) -> NiriWorkspaceView {
        NiriWorkspaceView {
            id: self.id,
            idx: self.idx,
            name: opt_view(self.name),
            output: opt_view(self.output),
            is_active: self.is_active,
            is_focused: self.is_focused,
            active_window_id: self.active_window_id,
        }
    }
}

impl Clone for NiriWorkspace {
    fn clone(&self) -> (r: Self)
        ensures
            r == *self,
    {
        NiriWorkspace {
            id: self.id,
            idx: self.idx,
            name: clone_opt_string(&self.name),
            output: clone_opt_string(&self.output),
            is_active: self.is_active,
            is_focused: self.is_focused,
            active_window_id: self.active_window_id,
        }
    }
}

/// The parts of a niri window that the bar reads.
#[derive(Debug)]
pub struct NiriWindow {
    pub id: u64,
    pub title: Option<String>,
}

/// The abstract value of a [`NiriWindow`].
pub struct NiriWindowView {
    pub id: u64,
    pub title: Option<Seq<char>>,
}

impl View for NiriWindow {
    type V = NiriWindowView;

    open spec fn view(&self) -> NiriWindowView {
        NiriWindowView { id: self.id, title: opt_view(self.title) }
    }
}

/// The niri events that change what the bar shows; every other event is `Other`.
#[derive(Debug)]
pub enum NiriEvent {
    /// The full list of workspaces.
    WorkspacesChanged(Vec<NiriWorkspace>),
    WorkspaceActivated { id: u64, focused: bool },
    WorkspaceActiveWindowChanged { workspace_id: u64, active_window_id: Option<u64> },
    /// The full list of windows.
    WindowsChanged(Vec<NiriWindow>),
    /// A window that opened or changed.
    WindowOpenedOrChanged(NiriWindow),
    WindowClosed { id: u64 },
    WindowFocusChanged { id: Option<u64> },
    Other,
}

/// The abstract value of a [`NiriEvent`].
pub enum NiriEventView {
    WorkspacesChanged { workspaces: Seq<NiriWorkspaceView> },
    WorkspaceActivated { id: u64, focused: bool },
    WorkspaceActiveWindowChanged { workspace_id: u64, active_window_id: Option<u64> },
    WindowsChanged { windows: Seq<NiriWindowView> },
    WindowOpenedOrChanged { window: NiriWindowView },
    WindowClosed { id: u64 },
    WindowFocusChanged { id: Option<u64> },
    Other,
}

impl View for NiriEvent {
    type V = NiriEventView;

    open spec fn view(&self) -> NiriEventView {
        match self {
            NiriEvent::WorkspacesChanged(workspaces) => NiriEventView::WorkspacesChanged {
                workspaces: workspaces@.map_values(|w: NiriWorkspace| w@),
            },
            NiriEvent::WorkspaceActivated { id, focused } => NiriEventView::WorkspaceActivated {
                id: *id,
                focused: *focused,
            },
            NiriEvent::WorkspaceActiveWindowChanged {
                workspace_id,
                active_window_id,
            } => NiriEventView::WorkspaceActiveWindowChanged {
                workspace_id: *workspace_id,
                active_window_id: *active_window_id,
            },
            NiriEvent::WindowsChanged(windows) => NiriEventView::WindowsChanged {
                windows: windows@.map_values(|w: NiriWindow| w@),
            },
            NiriEvent::WindowOpenedOrChanged(window) => NiriEventView::WindowOpenedOrChanged {
                window: window@,
            },
            NiriEvent::WindowClosed { id } => NiriEventView::WindowClosed { id: *id },
            NiriEvent::WindowFocusChanged { id } => NiriEventView::WindowFocusChanged { id: *id },
            NiriEvent::Other => NiriEventView::Other,
        }
    }
}

/// The subset of niri's state that the bar follows.
pub struct NiriState {
    workspaces: Vec<NiriWorkspace>,
    windows: HashMap<u64, NiriWindow>,
    focused_window_id: Option<u64>,
}

/// The abstract value of a [`NiriState`].
pub struct NiriStateView {
    pub workspaces: Seq<NiriWorkspaceView>,
    pub windows: Map<u64, NiriWindowView>,
    pub focused_window_id: Option<u64>,
}

impl View for NiriState {
    type V = NiriStateView;

    closed spec fn view(&self) -> NiriStateView {
        NiriStateView {
            workspaces: self.workspaces@.map_values(|w: NiriWorkspace| w@),
            windows: self.windows@.map_values(|w: NiriWindow| w@),
            focused_window_id: self.focused_window_id,
        }
    }
}

/// Position of the first workspace with id `id`.
pub open spec fn first_with_id(ws: Seq<NiriWorkspaceView>, id: u64) -> Option<nat>
    decreases ws.len(),
{
    if ws.len() == 0 {
        None
    } else if ws[0].id == id {
        Some(0)
    } else {
        match first_with_id(ws.drop_first(), id) {
            Some(i) => Some(i + 1),
            None => None,
        }
    }
}

/// The output of the first workspace with id `id`, `None` when there is none.
pub open spec fn output_of(ws: Seq<NiriWorkspaceView>, id: u64) -> Option<Seq<char>> {
    match first_with_id(ws, id) {
        Some(i) => ws[i as int].output,
        None => None,
    }
}

/// The workspaces after workspace `id` was activated: it becomes the active
/// one of its output, and, when `focused`, the focused one of all.
pub open spec fn activate(ws: Seq<NiriWorkspaceView>, id: u64, focused: bool) -> Seq<
    NiriWorkspaceView,
> {
    let output = output_of(ws, id);
    Seq::new(
        ws.len(),
        |i: int|
            NiriWorkspaceView {
                is_active: if ws[i].output == output {
                    ws[i].id == id
                } else {
                    ws[i].is_active
                },
                is_focused: if focused {
                    ws[i].id == id
                } else {
                    ws[i].is_focused
                },
                ..ws[i]
            },
    )
}

/// The windows keyed by id; a later window replaces an earlier one with the same id.
pub open spec fn window_map(windows: Seq<NiriWindowView>) -> Map<u64, NiriWindowView>
    decreases windows.len(),
{
    if windows.len() == 0 {
        Map::empty()
    } else {
        window_map(windows.drop_last()).insert(windows.last().id, windows.last())
    }
}

/// The state after `event`.
pub open spec fn niri_apply(s: NiriStateView, event: NiriEventView) -> NiriStateView {
    match event {
        NiriEventView::WorkspacesChanged { workspaces } => NiriStateView { workspaces, ..s },
        NiriEventView::WorkspaceActivated { id, focused } => NiriStateView {
            workspaces: activate(s.workspaces, id, focused),
            ..s
        },
        NiriEventView::WorkspaceActiveWindowChanged { workspace_id, active_window_id } => {
            match first_with_id(s.workspaces, workspace_id) {
                Some(i) => NiriStateView {
                    workspaces: s.workspaces.update(
                        i as int,
                        NiriWorkspaceView { active_window_id, ..s.workspaces[i as int] },
                    ),
                    ..s
                },
                None => s,
            }
        },
        NiriEventView::WindowsChanged { windows } => NiriStateView {
            windows: window_map(windows),
            ..s
        },
        NiriEventView::WindowOpenedOrChanged { window } => NiriStateView {
            windows: s.windows.insert(window.id, window),
            ..s
        },
        NiriEventView::WindowClosed { id } => NiriStateView {
            windows: s.windows.remove(id),
            focused_window_id: if s.focused_window_id == Some(id) {
                None
            } else {
                s.focused_window_id
            },
            ..s
        },
        NiriEventView::WindowFocusChanged { id } => NiriStateView { focused_window_id: id, ..s },
        NiriEventView::Other => s,
    }
}

/// The title of the focused window, if there is one and it has a title.
pub open spec fn focused_title(s: NiriStateView) -> Option<Seq<char>> {
    match s.focused_window_id {
        Some(id) => if s.windows.contains_key(id) {
            s.windows[id].title
        } else {
            None
        },
        None => None,
    }
}

/// How the bar shows a niri workspace: named by its name, else by its index;
/// empty when it has no active window.
pub open spec fn workspace_info(w: NiriWorkspaceView) -> WorkspaceView {
    WorkspaceView {
        id: decimal(w.id as nat),
        name: match w.name {
            Some(n) => n,
            None => decimal(w.idx as nat),
        },
        is_active: w.is_active,
        is_focused: w.is_focused,
        is_empty: w.active_window_id is None,
    }
}

impl NiriState {
    /// The state before any event.
    pub fn new() -> (s: Self)
        ensures
            s@.workspaces.len() == 0,
            s@.windows == Map::<u64, NiriWindowView>::empty(),
            s@.focused_window_id is None,
    {
        let s = NiriState { workspaces: Vec::new(), windows: HashMap::new(), focused_window_id: None };
        assert(s@.windows =~= Map::<u64, NiriWindowView>::empty());
        s
    }

    /// Applies one event.
    pub fn apply(&mut self, event: NiriEvent)
        ensures
            final(self)@ == niri_apply(old(self)@, event@),
    {
        let ghost before = self@;
        match event {
            NiriEvent::WorkspacesChanged(workspaces) => {
                self.workspaces = workspaces;
            },
            NiriEvent::WorkspaceActivated { id, focused } => {
                let output = self.output_of(id);
                let mut ws: Vec<NiriWorkspace> = Vec::new();
                for i in 0..self.workspaces.len()
                    invariant
                        self@ == before,
                        opt_view(output) == output_of(before.workspaces, id),
                        ws@.map_values(|w: NiriWorkspace| w@) == activate(
                            before.workspaces,
                            id,
                            focused,
                        ).take(i as int),
                {
                    let mut w = self.workspaces[i].clone();
                    let same_output = match (&w.output, &output) {
                        (Some(a), Some(b)) => *a == *b,
                        (None, None) => true,
                        _ => false,
                    };
                    if same_output {
                        w.is_active = w.id == id;
                    }
                    if focused {
                        w.is_focused = w.id == id;
                    }
                    assert(w@ == activate(before.workspaces, id, focused)[i as int]);
                    let ghost old_ws = ws@;
                    ws.push(w);
                    assert(ws@.map_values(|w: NiriWorkspace| w@) =~= old_ws.map_values(
                        |w: NiriWorkspace| w@,
                    ).push(w@));
                    assert(ws@.map_values(|w: NiriWorkspace| w@) =~= activate(
                        before.workspaces,
                        id,
                        focused,
                    ).take(i + 1));
                }
                self.workspaces = ws;
                assert(self@.workspaces =~= activate(before.workspaces, id, focused));
            },
            NiriEvent::WorkspaceActiveWindowChanged { workspace_id, active_window_id } => {
                match self.position_of(workspace_id) {
                    Some(i) => {
                        let mut w = self.workspaces[i].clone();
                        w.active_window_id = active_window_id;
                        let mut ws = self.workspaces.clone();
                        ws.set(i, w);
                        self.workspaces = ws;
                        assert(self@.workspaces =~= before.workspaces.update(
                            i as int,
                            NiriWorkspaceView {
                                active_window_id,
                                ..before.workspaces[i as int]
                            },
                        ));
                    },
                    None => {},
                }
            },
            NiriEvent::WindowsChanged(windows) => {
                let mut m: HashMap<u64, NiriWindow> = HashMap::new();
                let ghost all = windows@;
                let ghost wv = all.map_values(|w: NiriWindow| w@);
                proof {
                    assert(m@.map_values(|w: NiriWindow| w@) =~= window_map(wv.take(0)));
                }
                for w in it: windows
                    invariant
                        it.seq() == all,
                        wv == all.map_values(|w: NiriWindow| w@),
                        m@.map_values(|w: NiriWindow| w@) == window_map(wv.take(it.index())),
                {
                    let ghost i = it.index();
                    assert(wv.take(i + 1).drop_last() =~= wv.take(i));
                    let ghost before_m = m@;
                    m.insert(w.id, w);
                    assert(m@.map_values(|w: NiriWindow| w@) =~= before_m.map_values(
                        |w: NiriWindow| w@,
                    ).insert(all[i].id, all[i]@));
                }
                assert(wv.take(all.len() as int) =~= wv);
                self.windows = m;
            },
            NiriEvent::WindowOpenedOrChanged(window) => {
                let ghost before_m = self.windows@;
                let ghost wview = window@;
                self.windows.insert(window.id, window);
                assert(self.windows@.map_values(|w: NiriWindow| w@) =~= before_m.map_values(
                    |w: NiriWindow| w@,
                ).insert(wview.id, wview));
            },
            NiriEvent::WindowClosed { id } => {
                let ghost before_m = self.windows@;
                self.windows.remove(&id);
                assert(self.windows@.map_values(|w: NiriWindow| w@) =~= before_m.map_values(
                    |w: NiriWindow| w@,
                ).remove(id));
                if self.focused_window_id == Some(id) {
                    self.focused_window_id = None;
                }
            },
            NiriEvent::WindowFocusChanged { id } => {
                self.focused_window_id = id;
            },
            NiriEvent::Other => {},
        }
    }

    fn position_of(&self, id: u64) -> (r: Option<usize>)
        ensures
            match r {
                Some(i) => first_with_id(self@.workspaces, id) == Some(i as nat) && i
                    < self.workspaces@.len(),
                None => first_with_id(self@.workspaces, id) is None,
            },
    {
        let ghost ws = self@.workspaces;
        let mut i: usize = 0;
        assert(ws.skip(0) =~= ws);
        while i < self.workspaces.len()
            invariant
                ws == self@.workspaces,
                ws.len() == self.workspaces@.len(),
                0 <= i <= ws.len(),
                first_with_id(ws, id) == match first_with_id(ws.skip(i as int), id) {
                    Some(k) => Some((k + i) as nat),
                    None => None,
                },
            decreases ws.len() - i,
        {
            assert(ws.skip(i as int).drop_first() =~= ws.skip(i + 1));
            if self.workspaces[i].id == id {
                return Some(i);
            }
            i += 1;
        }
        None
    }

    fn output_of(&self, id: u64) -> (r: Option<String>)
        ensures
            opt_view(r) == output_of(self@.workspaces, id),
    {
        match self.position_of(id) {
            Some(i) => clone_opt_string(&self.workspaces[i].output),
            None => None,
        }
    }

    /// The title of the focused window.
    pub fn focused_window_title(&self) -> (t: Option<String>)
        ensures
            opt_view(t) == focused_title(self@),
    {
        match self.focused_window_id {
            Some(id) => match self.windows.get(&id) {
                Some(w) => clone_opt_string(&w.title),
                None => None,
            },
            None => None,
        }
    }

    /// The workspaces as the bar shows them, in niri's order.
    pub fn workspace_infos(&self) -> (r: Vec<WorkspaceInfo>)
        ensures
            r@.map_values(|w: WorkspaceInfo| w@) == self@.workspaces.map_values(
                |w: NiriWorkspaceView| workspace_info(w),
            ),
    {
        let mut r: Vec<WorkspaceInfo> = Vec::new();
        for i in 0..self.workspaces.len()
            invariant
                r@.map_values(|w: WorkspaceInfo| w@) == self@.workspaces.map_values(
                    |w: NiriWorkspaceView| workspace_info(w),
                ).take(i as int),
        {
            let ws = &self.workspaces[i];
            let name = match &ws.name {
                Some(n) => n.clone(),
                None => u64_to_string(ws.idx as u64),
            };
            let info = WorkspaceInfo {
                id: u64_to_string(ws.id),
                name,
                is_active: ws.is_active,
                is_focused: ws.is_focused,
                is_empty: ws.active_window_id.is_none(),
            };
            assert(self@.workspaces[i as int] == ws@);
            assert(info@ == workspace_info(ws@));
            let ghost old_r = r@;
            r.push(info);
            assert(r@.map_values(|w: WorkspaceInfo| w@) =~= old_r.map_values(
                |w: WorkspaceInfo| w@,
            ).push(info@));
            assert(r@.map_values(|w: WorkspaceInfo| w@) =~= self@.workspaces.map_values(
                |w: NiriWorkspaceView| workspace_info(w),
            ).take(i + 1));
        }
        assert(self@.workspaces.map_values(|w: NiriWorkspaceView| workspace_info(w)).take(
            self.workspaces@.len() as int,
        ) =~= self@.workspaces.map_values(|w: NiriWorkspaceView| workspace_info(w)));
        r
    }
}


/// What `serde_json::from_str::<niri_ipc::Event>` makes of an event line, as
/// the bar sees it: `None` when the line does not parse.
pub uninterp spec fn niri_event_of(line: Seq<char>) -> Option<NiriEventView>;

/// `serde_json::from_str::<niri_ipc::Event>(line)`, each event taken as the
/// library's [`NiriEvent`] (the events that do not change what the bar shows
/// as `Other`). The result is named [`niri_event_of`] of the line: parsing is
/// a function of the text alone.
#[verifier::external_body]
pub fn parse_niri_event(line: &str) -> (r: Option<NiriEvent>)
    ensures
        match r {
            Some(e) => niri_event_of(line@) == Some(e@),
            None => niri_event_of(line@) is None,
        },
{
    let win = |Window { id, title, .. }| NiriWindow { id, title };
    Some(match from_str(line).ok()? {
        WorkspacesChanged { workspaces } => NiriEvent::WorkspacesChanged(workspaces.into_iter().map(|Workspace { id, idx, name, output, is_active, is_focused, active_window_id, .. }| NiriWorkspace { id, idx, name, output, is_active, is_focused, active_window_id }).collect()),
        WorkspaceActivated { id, focused } => NiriEvent::WorkspaceActivated { id, focused },
        WorkspaceActiveWindowChanged { workspace_id, active_window_id } => NiriEvent::WorkspaceActiveWindowChanged { workspace_id, active_window_id },
        WindowsChanged { windows } => NiriEvent::WindowsChanged(windows.into_iter().map(win).collect()),
        WindowOpenedOrChanged { window } => NiriEvent::WindowOpenedOrChanged(win(window)),
        WindowClosed { id } => NiriEvent::WindowClosed { id },
        WindowFocusChanged { id } => NiriEvent::WindowFocusChanged { id },
        _ => NiriEvent::Other
    })
}

/// What `serde_json::from_str::<niri_ipc::Reply>` makes of niri's reply
/// line: `Err` with the parse error's message when it does not parse, else
/// the reply, `Ok(())` for a handled request and `Err` with niri's message
/// for a rejected one.
pub uninterp spec fn niri_reply_of(line: Seq<char>) -> Result<Result<(), Seq<char>>, Seq<char>>;

/// `serde_json::from_str::<niri_ipc::Reply>(line)`: the parse error as its
/// message, else niri's answer without the response's content. The result
/// is named [`niri_reply_of`] of the line.
#[verifier::external_body]
fn parse_niri_reply(line: &str) -> (r: Result<Result<(), String>, String>)
    ensures
        match r {
            Ok(Ok(())) => niri_reply_of(line@) == Ok::<Result<(), Seq<char>>, Seq<char>>(Ok(())),
            Ok(Err(m)) => niri_reply_of(line@) == Ok::<Result<(), Seq<char>>, Seq<char>>(Err(m@)),
            Err(e) => niri_reply_of(line@) == Err::<Result<(), Seq<char>>, Seq<char>>(e@),
        },
{
    match serde_json::from_str::<Reply>(line) {
        Ok(Ok(_)) => Ok(Ok(())),
        Ok(Err(m)) => Ok(Err(m)),
        Err(e) => Err(e.to_string()),
    }
}

/// The outcome of the event stream request, given niri's reply line.
pub open spec fn handshake_result(line: Seq<char>) -> Result<(), Seq<char>> {
    match niri_reply_of(line) {
        Ok(Ok(())) => Ok(()),
        Ok(Err(m)) => Err("Niri rejected EventStream request: "@ + m),
        Err(p) => Err("Failed to parse EventStream reply: "@ + p + " (line: "@ + trim(line) + ")"@),
    }
}

/// Reads niri's reply to the event stream request: `Ok` when niri took it,
/// else the error that ends the connection.
pub fn niri_handshake(line: &str) -> (r: Result<(), String>)
    ensures
        match r {
            Ok(()) => handshake_result(line@) == Ok::<(), Seq<char>>(()),
            Err(e) => handshake_result(line@) == Err::<(), Seq<char>>(e@),
        },
{
    match parse_niri_reply(line) {
        Ok(Ok(())) => Ok(()),
        Ok(Err(m)) => {
            let mut e = String::from_str("Niri rejected EventStream request: ");
            e.append(m.as_str());
            Err(e)
        },
        Err(p) => {
            let v = str_chars(line);
            let (a, b) = trim_bounds(&v, 0, v.len());
            assert(v@.subrange(0, v@.len() as int) =~= line@);
            let t = string_from(&v, a, b);
            let mut e = String::from_str("Failed to parse EventStream reply: ");
            e.append(p.as_str());
            e.append(" (line: ");
            e.append(t.as_str());
            e.append(")");
            Err(e)
        },
    }
}

/// Takes one event line: a line that parses updates the state and gives the
/// compositor state to report; any other line changes nothing and gives
/// nothing.
pub fn niri_step(state: &mut NiriState, line: &str) -> (r: Option<CompositorState>)
    ensures
        match niri_event_of(line@) {
            Some(e) => {
                &&& final(state)@ == niri_apply(old(state)@, e)
                &&& r matches Some(c) && c@.workspaces == final(state)@.workspaces.map_values(
                    |w: NiriWorkspaceView| workspace_info(w),
                ) && c@.active_window_title == focused_title(final(state)@)
            },
            None => final(state)@ == old(state)@ && r is None,
        },
{
    match parse_niri_event(line) {
        Some(event) => {
            state.apply(event);
            let workspaces = state.workspace_infos();
            let c = CompositorState {
                workspaces,
                active_window_title: state.focused_window_title(),
            };
            assert(workspace_views(c.workspaces@) == c.workspaces@.map_values(|w: WorkspaceInfo| w@));
            Some(c)
        },
        None => None,
    }
}

/// How a workspace is shown does not depend on anything but its own fields:
/// its id is shown as the decimal text of its niri id; a named workspace is
/// shown by its name; an unnamed one by the decimal text of its index on its
/// output, whatever its id.
pub proof fn lemma_workspace_shown_by_index(w: NiriWorkspaceView, other_id: u64)
    ensures
        parse_u64_spec(workspace_info(w).id) == Some(w.id),
        w.name matches Some(n) ==> workspace_info(w).name == n,
        w.name is None ==> parse_u64_spec(workspace_info(w).name) == Some(w.idx as u64),
        workspace_info(NiriWorkspaceView { id: other_id, ..w }).name == workspace_info(w).name,
        workspace_info(w).is_active == w.is_active,
        workspace_info(w).is_focused == w.is_focused,
        workspace_info(w).is_empty == (w.active_window_id is None),
{
    lemma_decimal_parse_roundtrip(w.id);
    lemma_decimal_parse_roundtrip(w.idx as u64);
}

/// Whether no two workspaces share an id.
pub open spec fn ids_unique(ws: Seq<NiriWorkspaceView>) -> bool {
    forall|i: int, j: int| 0 <= i < ws.len() && 0 <= j < ws.len() && ws[i].id == ws[j].id ==> i == j
}

proof fn lemma_first_with_id_found(ws: Seq<NiriWorkspaceView>, id: u64, k: int)
    requires
        0 <= k < ws.len(),
        ws[k].id == id,
    ensures
        first_with_id(ws, id) matches Some(i) && i < ws.len() && ws[i as int].id == id,
    decreases ws.len(),
{
    if ws[0].id != id {
        lemma_first_with_id_found(ws.drop_first(), id, k - 1);
    }
}

/// Focusing a workspace that exists leaves exactly that workspace focused
/// (ids being unique, as niri keeps them), and makes it the only active
/// workspace of its output.
pub proof fn lemma_activation_focus(s: NiriStateView, id: u64)
    requires
        ids_unique(s.workspaces),
        exists|k: int| 0 <= k < s.workspaces.len() && s.workspaces[k].id == id,
    ensures
        ({
            let after = niri_apply(s, NiriEventView::WorkspaceActivated { id, focused: true }).workspaces;
            &&& after.len() == s.workspaces.len()
            &&& exists|k: int|
                0 <= k < after.len() && after[k].id == id && after[k].is_focused && after[k].is_active
            &&& forall|j: int| 0 <= j < after.len() && after[j].is_focused ==> after[j].id == id
            &&& forall|i: int, j: int|
                0 <= i < after.len() && 0 <= j < after.len() && after[i].is_focused
                    && after[j].is_focused ==> i == j
            &&& forall|j: int|
                0 <= j < after.len() && after[j].is_active && after[j].output == output_of(
                    s.workspaces,
                    id,
                ) ==> after[j].id == id
        }),
{
    let k = choose|k: int| 0 <= k < s.workspaces.len() && s.workspaces[k].id == id;
    lemma_first_with_id_found(s.workspaces, id, k);
    let i = first_with_id(s.workspaces, id)->0 as int;
    let after = activate(s.workspaces, id, true);
    assert(after[i].id == id && after[i].is_focused && after[i].is_active);
}

/// Whether each output has at most one active workspace.
pub open spec fn one_active_per_output(ws: Seq<NiriWorkspaceView>) -> bool {
    forall|i: int, j: int|
        0 <= i < ws.len() && 0 <= j < ws.len() && #[trigger] ws[i].is_active && #[trigger] ws[j].is_active
            && ws[i].output == ws[j].output ==> i == j
}

/// Whether at most one workspace of all outputs is focused.
pub open spec fn one_focused(ws: Seq<NiriWorkspaceView>) -> bool {
    forall|i: int, j: int|
        0 <= i < ws.len() && 0 <= j < ws.len() && #[trigger] ws[i].is_focused
            && #[trigger] ws[j].is_focused ==> i == j
}

/// Activating a workspace keeps at most one active workspace per output and
/// at most one focused workspace (ids being unique, as niri keeps them),
/// whether or not the activation moves the focus.
pub proof fn lemma_activation_keeps_single(s: NiriStateView, id: u64, focused: bool)
    requires
        ids_unique(s.workspaces),
        one_active_per_output(s.workspaces),
        one_focused(s.workspaces),
    ensures
        ({
            let after = niri_apply(s, NiriEventView::WorkspaceActivated { id, focused }).workspaces;
            &&& one_active_per_output(after)
            &&& one_focused(after)
        }),
{
    let ws = s.workspaces;
    let after = activate(ws, id, focused);
    let out = output_of(ws, id);
    assert forall|i: int, j: int|
        0 <= i < after.len() && 0 <= j < after.len() && #[trigger] after[i].is_active
            && #[trigger] after[j].is_active && after[i].output == after[j].output implies i == j by {
        if ws[i].output == out {
            assert(ws[i].id == id && ws[j].id == id);
        } else {
            assert(ws[i].is_active && ws[j].is_active);
        }
    }
    assert forall|i: int, j: int|
        0 <= i < after.len() && 0 <= j < after.len() && #[trigger] after[i].is_focused
            && #[trigger] after[j].is_focused implies i == j by {
        if focused {
            assert(ws[i].id == id && ws[j].id == id);
        } else {
            assert(ws[i].is_focused && ws[j].is_focused);
        }
    }
}

/// A window that was opened or changed is the one found under its id, and
/// when it has the focus its title is the focused title.
pub proof fn lemma_window_update_read(s: NiriStateView, window: NiriWindowView)
    ensures
        ({
            let after = niri_apply(s, NiriEventView::WindowOpenedOrChanged { window });
            &&& after.windows.contains_key(window.id)
            &&& after.windows[window.id] == window
            &&& after.focused_window_id == Some(window.id) ==> focused_title(after) == window.title
        }),
{
}

/// A closed window is gone and does not hold the focus.
pub proof fn lemma_window_closed(s: NiriStateView, id: u64)
    ensures
        ({
            let after = niri_apply(s, NiriEventView::WindowClosed { id });
            &&& !after.windows.contains_key(id)
            &&& after.focused_window_id != Some(id)
            &&& s.focused_window_id == Some(id) ==> focused_title(after) is None
        }),
{
}

} // verus!
