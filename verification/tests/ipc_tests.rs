use nacre::ipc::hyprland::HyprlandIpc;
use nacre::ipc::mock::MockIpc;
use nacre::ipc::niri::{
    niri_handshake, niri_step, parse_niri_event, run_user_dir, socket_entry, NiriEvent, NiriState, NiriWindow,
    NiriWorkspace,
};
use nacre::ipc::{choose_compositor, CompositorChoice, CompositorState, WorkspaceInfo};

fn empty_state() -> CompositorState {
    CompositorState { workspaces: vec![], active_window_title: None }
}

#[test]
fn mock_cycles_focus_and_titles() {
    for tick in 0u64..6 {
        let s = MockIpc::state_at(tick);
        assert_eq!(s.workspaces.len(), 3);
        let focused: Vec<usize> =
            s.workspaces.iter().enumerate().filter(|(_, w)| w.is_focused).map(|(i, _)| i).collect();
        assert_eq!(focused, vec![(tick % 3) as usize]);
        assert_eq!(s.workspaces[2].is_active, tick % 2 == 0);
        assert_eq!(s.workspaces[2].is_empty, tick % 2 != 0);
    }
    assert_eq!(MockIpc::state_at(0).active_window_title.as_deref(), Some("Firefox - Github"));
    assert_eq!(
        MockIpc::state_at(1).active_window_title.as_deref(),
        Some("nacre - Cargo.toml - VS Code")
    );
    assert_eq!(MockIpc::state_at(5).active_window_title.as_deref(), Some("Discord"));
    assert_eq!(MockIpc::state_at(0).workspaces[1].name, "Code");
}

#[test]
fn hyprland_workspace_event() {
    let mut s = empty_state();
    assert!(HyprlandIpc::handle_event_line(&mut s, "workspace>>3\n"));
    assert_eq!(s.workspaces.len(), 5);
    for (i, w) in s.workspaces.iter().enumerate() {
        assert_eq!(w.id, (i + 1).to_string());
        assert_eq!(w.name, format!("Workspace {}", i + 1));
        assert!(w.is_active);
        assert_eq!(w.is_focused, i == 2);
        assert!(!w.is_empty);
    }
    assert_eq!(s.active_window_title, None);
}

#[test]
fn hyprland_active_window_event() {
    let mut s = empty_state();
    assert!(HyprlandIpc::handle_event_line(&mut s, "activewindow>>firefox,Mozilla Firefox\n"));
    assert_eq!(s.active_window_title.as_deref(), Some("Mozilla Firefox"));
    assert!(HyprlandIpc::handle_event_line(&mut s, "activewindow>>kitty\n"));
    assert_eq!(s.active_window_title.as_deref(), Some("kitty"));
    assert!(HyprlandIpc::handle_event_line(&mut s, "activewindow>>a,b,c\n"));
    assert_eq!(s.active_window_title.as_deref(), Some("b"));
}

#[test]
fn hyprland_ignores_other_lines() {
    let mut s = empty_state();
    assert!(!HyprlandIpc::handle_event_line(&mut s, "openwindow>>abc,1,kitty,kitty\n"));
    assert!(!HyprlandIpc::handle_event_line(&mut s, "no separator here\n"));
    assert!(s.workspaces.is_empty());
    assert_eq!(s.active_window_title, None);
}

#[test]
fn hyprland_socket_path() {
    let h = HyprlandIpc { instance_signature: "abc_123".to_string() };
    assert_eq!(h.socket_path(), "/tmp/hypr/abc_123/.socket2.sock");
}

fn ws(id: u64, idx: u8, name: Option<&str>, output: Option<&str>, active: bool, focused: bool) -> NiriWorkspace {
    NiriWorkspace {
        id,
        idx,
        name: name.map(|s| s.to_string()),
        output: output.map(|s| s.to_string()),
        is_active: active,
        is_focused: focused,
        active_window_id: None,
    }
}

fn two_outputs() -> NiriState {
    let mut st = NiriState::new();
    st.apply(NiriEvent::WorkspacesChanged(vec![
        ws(1, 1, Some("web"), Some("DP-1"), true, true),
        ws(2, 2, None, Some("DP-1"), false, false),
        ws(3, 1, None, Some("HDMI-1"), true, false),
    ]));
    st
}

#[test]
fn niri_workspace_infos() {
    let st = two_outputs();
    let infos = st.workspace_infos();
    assert_eq!(infos.len(), 3);
    assert_eq!(infos[0], WorkspaceInfo {
        id: "1".to_string(),
        name: "web".to_string(),
        is_active: true,
        is_focused: true,
        is_empty: true,
    });
    assert_eq!(infos[1].name, "2");
    assert_eq!(infos[2].id, "3");
}

#[test]
fn niri_activation_moves_focus_within_output() {
    let mut st = two_outputs();
    st.apply(NiriEvent::WorkspaceActivated { id: 2, focused: true });
    let infos = st.workspace_infos();
    assert_eq!(infos.iter().map(|w| w.is_active).collect::<Vec<_>>(), vec![false, true, true]);
    assert_eq!(infos.iter().map(|w| w.is_focused).collect::<Vec<_>>(), vec![false, true, false]);
    st.apply(NiriEvent::WorkspaceActivated { id: 3, focused: false });
    let infos = st.workspace_infos();
    assert_eq!(infos.iter().map(|w| w.is_active).collect::<Vec<_>>(), vec![false, true, true]);
    assert_eq!(infos.iter().map(|w| w.is_focused).collect::<Vec<_>>(), vec![false, true, false]);
}

#[test]
fn niri_windows_and_focus() {
    let mut st = two_outputs();
    st.apply(NiriEvent::WindowsChanged(vec![
        NiriWindow { id: 10, title: Some("Editor".to_string()) },
        NiriWindow { id: 11, title: None },
    ]));
    assert_eq!(st.focused_window_title(), None);
    st.apply(NiriEvent::WindowFocusChanged { id: Some(10) });
    assert_eq!(st.focused_window_title().as_deref(), Some("Editor"));
    st.apply(NiriEvent::WindowOpenedOrChanged(NiriWindow {
        id: 10,
        title: Some("Editor - file.rs".to_string()),
    }));
    assert_eq!(st.focused_window_title().as_deref(), Some("Editor - file.rs"));
    st.apply(NiriEvent::WindowFocusChanged { id: Some(11) });
    assert_eq!(st.focused_window_title(), None);
    st.apply(NiriEvent::WindowFocusChanged { id: Some(10) });
    st.apply(NiriEvent::WindowClosed { id: 10 });
    assert_eq!(st.focused_window_title(), None);
    st.apply(NiriEvent::WindowOpenedOrChanged(NiriWindow { id: 10, title: Some("again".to_string()) }));
    assert_eq!(st.focused_window_title(), None);
}

#[test]
fn niri_active_window_marks_workspace_non_empty() {
    let mut st = two_outputs();
    st.apply(NiriEvent::WorkspaceActiveWindowChanged { workspace_id: 3, active_window_id: Some(10) });
    let infos = st.workspace_infos();
    assert_eq!(infos.iter().map(|w| w.is_empty).collect::<Vec<_>>(), vec![true, true, false]);
    st.apply(NiriEvent::WorkspaceActiveWindowChanged { workspace_id: 99, active_window_id: Some(1) });
    assert_eq!(st.workspace_infos(), infos);
    st.apply(NiriEvent::Other);
    assert_eq!(st.workspace_infos(), infos);
}

#[test]
fn niri_socket_search() {
    assert_eq!(run_user_dir(1000), "/run/user/1000");
    let names: Vec<String> =
        ["bus", "niri.wayland-1.sock", "niri-ipc.sock", "niri-ipc.2"].iter().map(|s| s.to_string()).collect();
    assert_eq!(socket_entry(&names), Some(2));
    assert_eq!(socket_entry(&names[..2].to_vec()), None);
}

fn niri_workspace(id: u64, idx: u8, name: Option<&str>, output: &str, active: bool, focused: bool) -> niri_ipc::Workspace {
    niri_ipc::Workspace {
        id,
        idx,
        name: name.map(|n| n.to_string()),
        output: Some(output.to_string()),
        is_urgent: false,
        is_active: active,
        is_focused: focused,
        active_window_id: None,
    }
}

fn niri_window(id: u64, title: &str) -> niri_ipc::Window {
    niri_ipc::Window {
        id,
        title: Some(title.to_string()),
        app_id: None,
        pid: None,
        workspace_id: Some(1),
        is_focused: false,
        is_floating: false,
        is_urgent: false,
        layout: niri_ipc::WindowLayout {
            pos_in_scrolling_layout: None,
            tile_size: (1.0, 1.0),
            window_size: (1, 1),
            tile_pos_in_workspace_view: None,
            window_offset_in_tile: (0.0, 0.0),
        },
        focus_timestamp: None,
    }
}

fn line_of(event: &niri_ipc::Event) -> String {
    serde_json::to_string(event).unwrap()
}

#[test]
fn niri_event_lines_drive_state() {
    let mut state = NiriState::new();
    let line = line_of(&niri_ipc::Event::WorkspacesChanged {
        workspaces: vec![
            niri_workspace(1, 1, Some("web"), "A", true, true),
            niri_workspace(2, 2, None, "A", false, false),
        ],
    });
    let s = niri_step(&mut state, &line).unwrap();
    assert_eq!(s.workspaces.len(), 2);
    assert_eq!(s.workspaces[0].name, "web");
    assert_eq!(s.workspaces[1].name, "2");
    assert!(s.workspaces[0].is_focused && !s.workspaces[1].is_focused);
    assert_eq!(s.active_window_title, None);

    let line = line_of(&niri_ipc::Event::WindowOpenedOrChanged { window: niri_window(7, "Term") });
    assert!(niri_step(&mut state, &line).is_some());
    let line = line_of(&niri_ipc::Event::WindowFocusChanged { id: Some(7) });
    let s = niri_step(&mut state, &line).unwrap();
    assert_eq!(s.active_window_title.as_deref(), Some("Term"));

    let line = line_of(&niri_ipc::Event::WorkspaceActivated { id: 2, focused: true });
    let s = niri_step(&mut state, &line).unwrap();
    assert!(!s.workspaces[0].is_active && s.workspaces[1].is_active);
    assert!(!s.workspaces[0].is_focused && s.workspaces[1].is_focused);

    // A line that does not parse changes nothing and reports nothing.
    assert!(niri_step(&mut state, "{\"NoSuchEvent\":{}}").is_none());
    assert!(niri_step(&mut state, "not json").is_none());
    assert_eq!(state.focused_window_title().as_deref(), Some("Term"));
    assert_eq!(state.workspace_infos().len(), 2);
}

#[test]
fn niri_lines_parse_to_events() {
    match parse_niri_event(&line_of(&niri_ipc::Event::WindowClosed { id: 9 })) {
        Some(NiriEvent::WindowClosed { id }) => assert_eq!(id, 9),
        _ => panic!("expected a closed window"),
    }
    let line = line_of(&niri_ipc::Event::KeyboardLayoutSwitched { idx: 0 });
    assert!(matches!(parse_niri_event(&line), Some(NiriEvent::Other)));
    assert!(parse_niri_event("").is_none());
}

#[test]
fn niri_handshake_replies() {
    let handled: niri_ipc::Reply = Ok(niri_ipc::Response::Handled);
    assert_eq!(niri_handshake(&serde_json::to_string(&handled).unwrap()), Ok(()));
    let rejected: niri_ipc::Reply = Err("nope".to_string());
    assert_eq!(
        niri_handshake(&serde_json::to_string(&rejected).unwrap()),
        Err("Niri rejected EventStream request: nope".to_string())
    );
    let e = niri_handshake("  garbage \n").unwrap_err();
    assert!(e.starts_with("Failed to parse EventStream reply: "), "{}", e);
    assert!(e.ends_with(" (line: garbage)"), "{}", e);
}

#[test]
fn compositor_choice_order() {
    let p = std::path::PathBuf::from("/run/user/1000/niri-ipc.sock");
    match choose_compositor(Some(p.clone()), Some("sig".to_string())) {
        CompositorChoice::Niri(n) => assert_eq!(n.socket_path, Some(p)),
        _ => panic!("niri comes first"),
    }
    match choose_compositor(None, Some("sig".to_string())) {
        CompositorChoice::Hyprland(h) => assert_eq!(h.instance_signature, "sig"),
        _ => panic!("then Hyprland"),
    }
    assert!(matches!(choose_compositor(None, None), CompositorChoice::Mock(_)));
}
