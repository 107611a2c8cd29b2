//! Hyprland: the compositor reports events as lines `event>>data` on its
//! second socket; the bar follows workspace focus and the focused window.

use vstd::prelude::*;

use crate::ipc::{CompositorState, CompositorStateView, WorkspaceInfo, WorkspaceView};
use crate::text::{
    decimal, digit_char, find, find_in, is_first_occurrence, lemma_first_occurrence_unique, range_equals,
    second_field, second_field_bounds, str_chars, string_from, trim, trim_bounds, u64_to_string,
};

verus! {

/// Connection settings for a running Hyprland instance.
pub struct HyprlandIpc {
    pub instance_signature: String,
}

/// The workspaces the bar shows after focus moved to the workspace named `data`.
pub open spec fn hypr_workspaces(data: Seq<char>) -> Seq<WorkspaceView> {
    Seq::new(
        5,
        |k: int|
            WorkspaceView {
                id: decimal((k + 1) as nat),
                name: "Workspace "@ + decimal((k + 1) as nat),
                is_active: true,
                is_focused: decimal((k + 1) as nat) == data,
                is_empty: false,
            },
    )
}

/// The second comma-separated field of `data`, or all of `data` when it has no comma.
pub open spec fn hypr_title(data: Seq<char>) -> Seq<char> {
    second_field(data, ","@)
}

/// The state after the event line `line`, or `None` when the line changes nothing.
pub open spec fn hypr_apply(state: CompositorStateView, line: Seq<char>) -> Option<
    CompositorStateView,
> {
    match find(line, ">>"@) {
        None => None,
        Some(p) => {
            let event = line.take(p);
            let data = trim(line.skip(p + 2));
            if event == "workspace"@ {
                Some(CompositorStateView { workspaces: hypr_workspaces(data), ..state })
            } else if event == "activewindow"@ {
                Some(CompositorStateView { active_window_title: Some(hypr_title(data)), ..state })
            } else {
                None
            }
        },
    }
}

fn workspaces_for(data: &String) -> (r: Vec<WorkspaceInfo>)
    ensures
        r@.map_values(|w: WorkspaceInfo| w@) == hypr_workspaces(data@),
{
    let mut r: Vec<WorkspaceInfo> = Vec::new();
    let mut i: u64 = 1;
    while i <= 5
        invariant
            1 <= i <= 6,
            r@.len() == i - 1,
            forall|k: int|
                0 <= k < i - 1 ==> #[trigger] r@[k]@ == hypr_workspaces(data@)[k],
        decreases 6 - i,
    {
        let id_str = u64_to_string(i);
        let mut name = String::from_str("Workspace ");
        name.append(id_str.as_str());
        let focused = id_str == *data;
        r.push(
            WorkspaceInfo {
                id: id_str,
                name,
                is_active: true,
                is_focused: focused,
                is_empty: false,
            },
        );
        i += 1;
    }
    assert(r@.map_values(|w: WorkspaceInfo| w@) =~= hypr_workspaces(data@));
    r
}

fn title_of(v: &Vec<char>, lo: usize, hi: usize) -> (t: String)
    requires
        lo <= hi <= v@.len(),
    ensures
        t@ == hypr_title(v@.subrange(lo as int, hi as int)),
{
    let comma = str_chars(",");
    let (a, b) = second_field_bounds(v, lo, hi, &comma);
    string_from(v, a, b)
}

impl HyprlandIpc {
    /// Path of the event socket of this instance.
    pub fn socket_path(&self) -> (p: String)
        ensures
            p@ == "/tmp/hypr/"@ + self.instance_signature@ + "/.socket2.sock"@,
    {
        let mut p = String::from_str("/tmp/hypr/");
        p.append(self.instance_signature.as_str());
        p.append("/.socket2.sock");
        p
    }

    /// Applies one event line (`event>>data`) to `state`; returns whether the
    /// state changed and is to be reported.
    pub fn handle_event_line(state: &mut CompositorState, line: &str) -> (changed: bool)
        ensures
            match hypr_apply(old(state)@, line@) {
                Some(n) => changed && final(state)@ == n,
                None => !changed && final(state)@ == old(state)@,
            },
    {
        let v = str_chars(line);
        let sep = str_chars(">>");
        proof {
            reveal_strlit(">>");
        }
        match find_in(&v, 0, v.len(), &sep) {
            None => {
                assert(v@.subrange(0, v@.len() as int) =~= line@);
                false
            },
            Some(p) => {
                assert(v@.subrange(0, v@.len() as int) =~= line@);
                assert(line@.take(p as int) =~= v@.subrange(0, p as int));
                assert(line@.skip(p + 2) =~= v@.subrange(p + 2, v@.len() as int));
                let (a, b) = trim_bounds(&v, p + 2, v.len());
                let ev_ws = str_chars("workspace");
                let ev_aw = str_chars("activewindow");
                if range_equals(&v, 0, p, &ev_ws) {
                    let data = string_from(&v, a, b);
                    state.workspaces = workspaces_for(&data);
                    true
                } else if range_equals(&v, 0, p, &ev_aw) {
                    state.active_window_title = Some(title_of(&v, a, b));
                    true
                } else {
                    false
                }
            },
        }
    }
}


/// After a workspace event at most one of the five workspaces is focused:
/// the one whose number is the event's data, if any.
pub proof fn lemma_hypr_single_focus(data: Seq<char>)
    ensures
        hypr_workspaces(data).len() == 5,
        forall|i: int, j: int|
            0 <= i < 5 && 0 <= j < 5 && hypr_workspaces(data)[i].is_focused
                && hypr_workspaces(data)[j].is_focused ==> i == j,
        forall|k: int|
            1 <= k <= 5 && data == #[trigger] decimal(k as nat) ==> hypr_workspaces(data)[k - 1].is_focused,
{
    assert forall|i: int, j: int|
        0 <= i < 5 && 0 <= j < 5 && hypr_workspaces(data)[i].is_focused
            && hypr_workspaces(data)[j].is_focused implies i == j by {
        assert(decimal((i + 1) as nat) == seq![digit_char((i + 1) as nat)]);
        assert(decimal((j + 1) as nat) == seq![digit_char((j + 1) as nat)]);
        assert(decimal((i + 1) as nat)[0] == decimal((j + 1) as nat)[0]);
    }
}

/// When `name>>` starts `line` and `name` holds no `>`, the event name of
/// the line is `name`: the first `>>` follows it.
proof fn lemma_event_prefix(line: Seq<char>, name: Seq<char>)
    requires
        (name + ">>"@).is_prefix_of(line),
        forall|k: int| 0 <= k < name.len() ==> name[k] != '>',
    ensures
        find(line, ">>"@) == Some(name.len() as int),
        line.take(name.len() as int) == name,
{
    reveal_strlit(">>");
    let n = name.len() as int;
    assert(line.subrange(n, n + 2) =~= ">>"@) by {
        assert((name + ">>"@)[n] == line[n]);
        assert((name + ">>"@)[n + 1] == line[n + 1]);
    }
    assert forall|j: int| 0 <= j < n implies #[trigger] line.subrange(j, j + 2) != ">>"@ by {
        assert(line[j] == (name + ">>"@)[j]);
        assert(line.subrange(j, j + 2)[0] == line[j]);
    }
    assert(is_first_occurrence(line, ">>"@, n));
    let c = choose|i: int| is_first_occurrence(line, ">>"@, i);
    lemma_first_occurrence_unique(line, ">>"@, c, n);
    assert(line.take(n) =~= name) by {
        assert forall|k: int| 0 <= k < n implies line.take(n)[k] == name[k] by {
            assert((name + ">>"@)[k] == line[k]);
        }
    }
}

/// Only the two events the bar follows change the state, and only when the
/// event name is exactly theirs: a line changes the state only if it starts
/// with `workspace>>` or `activewindow>>` (so `activewindowv2>>…` and any
/// other event are ignored). A `workspace>>` line replaces the workspaces
/// and keeps the title; an `activewindow>>` line sets the title and keeps
/// the workspaces.
pub proof fn lemma_hypr_only_known_events(s: CompositorStateView, line: Seq<char>)
    ensures
        hypr_apply(s, line) is Some ==> "workspace>>"@.is_prefix_of(line)
            || "activewindow>>"@.is_prefix_of(line),
        "workspace>>"@.is_prefix_of(line) ==> (hypr_apply(s, line) matches Some(n)
            && n.active_window_title == s.active_window_title && n.workspaces.len() == 5),
        "activewindow>>"@.is_prefix_of(line) ==> (hypr_apply(s, line) matches Some(n)
            && n.workspaces == s.workspaces && n.active_window_title is Some),
{
    reveal_strlit("workspace");
    reveal_strlit("activewindow");
    reveal_strlit(">>");
    reveal_strlit("workspace>>");
    reveal_strlit("activewindow>>");
    assert("workspace"@ + ">>"@ =~= "workspace>>"@);
    assert("activewindow"@ + ">>"@ =~= "activewindow>>"@);
    if "workspace>>"@.is_prefix_of(line) {
        lemma_event_prefix(line, "workspace"@);
    }
    if "activewindow>>"@.is_prefix_of(line) {
        lemma_event_prefix(line, "activewindow"@);
    }
    if hypr_apply(s, line) is Some {
        let p = find(line, ">>"@)->0;
        assert(exists|i: int| is_first_occurrence(line, ">>"@, i));
        assert(is_first_occurrence(line, ">>"@, p));
        assert(line.subrange(p, p + 2) == ">>"@);
        if line.take(p) == "workspace"@ {
            assert(line.subrange(0, 11) =~= "workspace>>"@) by {
                assert forall|k: int| 0 <= k < 11 implies line.subrange(0, 11)[k] == "workspace>>"@[k] by {
                    if k < 9 {
                        assert(line.take(p)[k] == line[k]);
                    } else {
                        assert(line.subrange(p, p + 2)[k - 9] == line[k]);
                    }
                }
            }
        } else {
            assert(line.take(p) == "activewindow"@);
            assert(line.subrange(0, 14) =~= "activewindow>>"@) by {
                assert forall|k: int| 0 <= k < 14 implies line.subrange(0, 14)[k] == "activewindow>>"@[k] by {
                    if k < 12 {
                        assert(line.take(p)[k] == line[k]);
                    } else {
                        assert(line.subrange(p, p + 2)[k - 12] == line[k]);
                    }
                }
            }
        }
    }
}

} // verus!
