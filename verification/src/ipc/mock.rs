//! A stand-in compositor that cycles through fixed states, used when no
//! compositor can be reached.

use vstd::prelude::*;

use crate::ipc::{CompositorState, WorkspaceInfo, WorkspaceView};

verus! {

/// Stand-in compositor connection.
pub struct MockIpc;

/// The workspaces the stand-in compositor reports at `tick`.
pub open spec fn mock_workspaces(tick: nat) -> Seq<WorkspaceView> {
    seq![
        WorkspaceView {
            id: "1"@,
            name: "Web"@,
            is_active: true,
            is_focused: tick % 3 == 0,
            is_empty: false,
        },
        WorkspaceView {
            id: "2"@,
            name: "Code"@,
            is_active: true,
            is_focused: tick % 3 == 1,
            is_empty: false,
        },
        WorkspaceView {
            id: "3"@,
            name: "Chat"@,
            is_active: tick % 2 == 0,
            is_focused: tick % 3 == 2,
            is_empty: tick % 2 != 0,
        },
    ]
}

/// The focused window title the stand-in compositor reports at `tick`.
pub open spec fn mock_title(tick: nat) -> Seq<char> {
    if tick % 3 == 0 {
        "Firefox - Github"@
    } else if tick % 3 == 1 {
        "nacre - Cargo.toml - VS Code"@
    } else {
        "Discord"@
    }
}

impl MockIpc {
    /// The state reported at the `tick`-th report (one report every four seconds).
    pub fn state_at(tick: u64) -> (s: CompositorState)
        ensures
            s@.workspaces == mock_workspaces(tick as nat),
            s@.active_window_title == Some(mock_title(tick as nat)),
    {
        let workspaces = vec![
            WorkspaceInfo {
                id: String::from_str("1"),
                name: String::from_str("Web"),
                is_active: true,
                is_focused: tick % 3 == 0,
                is_empty: false,
            },
            WorkspaceInfo {
                id: String::from_str("2"),
                name: String::from_str("Code"),
                is_active: true,
                is_focused: tick % 3 == 1,
                is_empty: false,
            },
            WorkspaceInfo {
                id: String::from_str("3"),
                name: String::from_str("Chat"),
                is_active: tick % 2 == 0,
                is_focused: tick % 3 == 2,
                is_empty: tick % 2 != 0,
            },
        ];
        let title = if tick % 3 == 0 {
            String::from_str("Firefox - Github")
        } else if tick % 3 == 1 {
            String::from_str("nacre - Cargo.toml - VS Code")
        } else {
            String::from_str("Discord")
        };
        let s = CompositorState { workspaces, active_window_title: Some(title) };
        assert(s@.workspaces =~= mock_workspaces(tick as nat));
        s
    }
}

/// At every tick exactly one of the stand-in workspaces is focused, and the
/// third is empty exactly when it is not active.
pub proof fn lemma_mock_one_focused(tick: nat)
    ensures
        forall|i: int, j: int|
            0 <= i < 3 && 0 <= j < 3 && mock_workspaces(tick)[i].is_focused
                && mock_workspaces(tick)[j].is_focused ==> i == j,
        exists|i: int| 0 <= i < 3 && mock_workspaces(tick)[i].is_focused,
        mock_workspaces(tick)[2].is_empty == !mock_workspaces(tick)[2].is_active,
        mock_workspaces(tick).len() == 3,
{
    let w = mock_workspaces(tick);
    assert(w[(tick % 3) as int].is_focused);
}

} // verus!
