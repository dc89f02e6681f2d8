//! Decisions of the pane switcher views: which pane is current, what a key
//! press does, and the title and status over the table.
use crate::config::UiConfig;
use crate::keys::{is_quit, quits, Key, KeyPress};
use crate::panes::{same_snapshot, PaneSnapshot};
use crate::panes_tui::PaneSwitcherState;
use crate::style::{
    accent, fg, fg_bold, line, muted, plain, span, span_owned, span_views, StyledLine, TextStyle,
};
use crate::text::{from_chars, repeat_char};
use vstd::prelude::*;

verus! {

/// The full-screen switcher, or the narrow list beside a pane.
#[derive(Debug, Clone, Copy, PartialEq, Eq, Structural)]
pub enum ViewMode {
    Fullscreen,
    Sidebar,
}

impl ViewMode {
    /// Why the view cannot start outside a terminal.
    pub fn terminal_required_message(self) -> (r: &'static str)
        ensures
            self == ViewMode::Fullscreen ==> r@ == "panes switch --tui requires an interactive terminal"@,
            self == ViewMode::Sidebar ==> r@ == "panes switch --tui-sidebar requires an interactive terminal"@,
    {
        match self {
            ViewMode::Fullscreen => "panes switch --tui requires an interactive terminal",
            ViewMode::Sidebar => "panes switch --tui-sidebar requires an interactive terminal",
        }
    }

    /// Whether the view opens showing only the current session's panes.
    pub fn current_session_only(self, ui: &UiConfig) -> (r: bool)
        ensures
            r == match self {
                ViewMode::Fullscreen => ui.pane_switcher_current_session_only,
                ViewMode::Sidebar => ui.pane_switcher_sidebar_current_session_only,
            },
    {
        match self {
            ViewMode::Fullscreen => ui.pane_switcher_current_session_only,
            ViewMode::Sidebar => ui.pane_switcher_sidebar_current_session_only,
        }
    }

    /// The pane the view leaves out of its list: the sidebar's own pane.
    pub fn excluded_pane(self, tmux_pane_id: Option<String>) -> (r: Option<String>)
        ensures
            r == match self {
                ViewMode::Fullscreen => None,
                ViewMode::Sidebar => tmux_pane_id,
            },
    {
        match self {
            ViewMode::Fullscreen => None,
            ViewMode::Sidebar => tmux_pane_id,
        }
    }
}

/// The pane the switcher treats as current: the source pane it was asked
/// about, else the pane it runs in.
pub fn resolve_current_pane_id(source_pane_id: Option<&str>, tmux_pane_id: Option<String>) -> (r:
    Option<String>)
    ensures
        match source_pane_id {
            Some(s) => r is Some && r->0@ == s@,
            None => r == tmux_pane_id,
        },
{
    match source_pane_id {
        Some(s) => Some(String::from_str(s)),
        None => tmux_pane_id,
    }
}

/// What the switcher does after a key press.
#[derive(Debug)]
pub enum KeyAction {
    Nothing,
    Quit,
    Activate(PaneSnapshot),
    ToggleSessionFilter,
}

/// The row selected after moving up from `selected` among `len` rows: the
/// one above, or the last from the first.
pub open spec fn wrap_up(selected: int, len: int) -> int {
    if len == 0 {
        selected
    } else if selected == 0 {
        len - 1
    } else {
        selected - 1
    }
}

/// The row selected after moving down: the one below, or the first from
/// the last (or from beyond it).
pub open spec fn wrap_down(selected: int, len: int) -> int {
    if len == 0 {
        selected
    } else if selected + 1 >= len {
        0
    } else {
        selected + 1
    }
}

/// What a key press does to the switcher: quit keys quit, `s` toggles the
/// session filter, up/down (or `k`/`j`) move the selection and wrap
/// around, Home and End go to the first and last rows, and Enter activates
/// the selected pane. Only the selection changes.
pub fn handle_key(key: KeyPress, state: &mut PaneSwitcherState, selected: &mut usize) -> (r:
    KeyAction)
    ensures
        final(state).all_rows == old(state).all_rows,
        final(state).rows == old(state).rows,
        final(state).loaded_count == old(state).loaded_count,
        final(state).current_session_only == old(state).current_session_only,
        final(state).current_session_name == old(state).current_session_name,
        ({
            let len = old(state).rows@.len() as int;
            let moved = key.key == Key::Up || key.key == Key::Char('k') || key.key == Key::Down
                || key.key == Key::Char('j') || key.key == Key::Home || key.key == Key::End;
            if is_quit(key) {
                r is Quit && *final(selected) == *old(selected) && final(state).selected
                    == old(state).selected
            } else if key.key == Key::Char('s') {
                r is ToggleSessionFilter && *final(selected) == *old(selected)
                    && final(state).selected == old(state).selected
            } else if moved {
                &&& r is Nothing
                &&& final(state).selected == *final(selected)
                &&& (key.key == Key::Up || key.key == Key::Char('k')) ==> *final(selected)
                    == wrap_up(*old(selected) as int, len)
                &&& (key.key == Key::Down || key.key == Key::Char('j')) ==> *final(selected)
                    == wrap_down(*old(selected) as int, len)
                &&& key.key == Key::Home ==> *final(selected) == 0
                &&& key.key == Key::End ==> *final(selected) == if len == 0 {
                    0
                } else {
                    len - 1
                }
            } else if key.key == Key::Enter {
                &&& *final(selected) == *old(selected)
                &&& final(state).selected == old(state).selected
                &&& old(state).selected < len ==> (r matches KeyAction::Activate(p) && same_snapshot(
                    p,
                    old(state).rows@[old(state).selected as int].snapshot,
                ))
                &&& old(state).selected >= len ==> r is Nothing
            } else {
                r is Nothing && *final(selected) == *old(selected) && final(state).selected
                    == old(state).selected
            }
        }),
{
    if quits(key) {
        return KeyAction::Quit;
    }
    let len = state.rows.len();
    match key.key {
        Key::Char('s') => KeyAction::ToggleSessionFilter,
        Key::Up | Key::Char('k') => {
            if len > 0 {
                *selected = if *selected == 0 {
                    len - 1
                } else {
                    *selected - 1
                };
            }
            state.selected = *selected;
            KeyAction::Nothing
        },
        Key::Down | Key::Char('j') => {
            if len > 0 {
                *selected = if *selected >= len - 1 {
                    0
                } else {
                    *selected + 1
                };
            }
            state.selected = *selected;
            KeyAction::Nothing
        },
        Key::Home => {
            *selected = 0;
            state.selected = 0;
            KeyAction::Nothing
        },
        Key::End => {
            *selected = if len == 0 {
                0
            } else {
                len - 1
            };
            state.selected = *selected;
            KeyAction::Nothing
        },
        Key::Enter => {
            if state.selected < len {
                KeyAction::Activate(state.rows[state.selected].snapshot.duplicate())
            } else {
                KeyAction::Nothing
            }
        },
        _ => KeyAction::Nothing,
    }
}

/// Moving down and then up among `len` rows comes back to the row one
/// started from, and so does moving up and then down.
pub proof fn lemma_wrap_down_up(selected: int, len: int)
    requires
        0 <= selected < len,
    ensures
        wrap_up(wrap_down(selected, len), len) == selected,
        wrap_down(wrap_up(selected, len), len) == selected,
        0 <= wrap_down(selected, len) < len,
        0 <= wrap_up(selected, len) < len,
{
}

/// The switcher's state word: `empty` with no rows, `ready` once every row
/// has its details, `loading` before.
pub open spec fn header_status_spec(loaded: nat, total: nat) -> Seq<char> {
    if total == 0 {
        "empty"@
    } else if loaded >= total {
        "ready"@
    } else {
        "loading"@
    }
}

pub fn header_status(loaded: usize, total: usize) -> (r: &'static str)
    ensures
        r@ == header_status_spec(loaded as nat, total as nat),
{
    if total == 0 {
        "empty"
    } else if loaded >= total {
        "ready"
    } else {
        "loading"
    }
}

/// The pane whose details the summary line shows: the selected row's.
pub fn selected_snapshot(state: &PaneSwitcherState) -> (r: Option<&PaneSnapshot>)
    ensures
        state.selected < state.rows@.len() ==> r == Some(&state.rows@[state.selected as int].snapshot),
        state.selected >= state.rows@.len() ==> r is None,
{
    if state.selected < state.rows.len() {
        Some(&state.rows[state.selected].snapshot)
    } else {
        None
    }
}

/// The title bar at `width` columns: the title alone when the bar does not
/// fit, else the title in a box top `┌ TITLE ───┐` filling the width.
pub open spec fn title_spans_spec(width: nat) -> Seq<(Seq<char>, TextStyle)> {
    let title = "SWARMUX PANES"@;
    if width < 17 {
        seq![(title, fg_bold(accent()))]
    } else {
        seq![
            ("\u{250c} "@, fg(muted())),
            (title, fg_bold(accent())),
            (" "@, fg(muted())),
            (Seq::new((width - 17) as nat, |_i: int| '\u{2500}'), fg(muted())),
            ("\u{2510}"@, fg(muted())),
        ]
    }
}

pub fn header_title_line(width: u16) -> (r: StyledLine)
    ensures
        span_views(r.spans@) == title_spans_spec(width as nat),
        r.style == plain(),
{
    let title = "SWARMUX PANES";
    proof {
        reveal_strlit("SWARMUX PANES");
    }
    if width < 17 {
        let r = line(vec![span(title, fg_bold(accent()))]);
        assert(span_views(r.spans@) =~= title_spans_spec(width as nat));
        return r;
    }
    let fill = from_chars(&repeat_char('\u{2500}', (width - 17) as usize));
    let r = line(
        vec![
            span("\u{250c} ", fg(muted())),
            span(title, fg_bold(accent())),
            span(" ", fg(muted())),
            span_owned(fill, fg(muted())),
            span("\u{2510}", fg(muted())),
        ],
    );
    assert(span_views(r.spans@) =~= title_spans_spec(width as nat));
    r
}

} // verus!
