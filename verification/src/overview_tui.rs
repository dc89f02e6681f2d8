//! The task overview's state and what each key press does to it.
use crate::keys::{is_quit, quits, Key, KeyPress};
use crate::model::{state_is_terminal, OverviewScope, TaskRecord, TaskState};
use crate::overview_tui_data::{filter_positions, DashboardData};
use vstd::prelude::*;

verus! {

/// The overview's two tabs.
#[derive(Debug, Clone, Copy, PartialEq, Eq, Structural)]
pub enum Tab {
    Tasks,
    Stats,
}

/// Which tasks the task list shows.
#[derive(Debug, Clone, Copy, PartialEq, Eq, Structural)]
pub enum TasksFilter {
    Active,
    Terminal,
    All,
}

pub open spec fn filter_of_scope(scope: OverviewScope) -> TasksFilter {
    match scope {
        OverviewScope::Terminal => TasksFilter::Terminal,
        OverviewScope::NonTerminal => TasksFilter::Active,
        OverviewScope::All => TasksFilter::All,
    }
}

pub open spec fn next_filter(f: TasksFilter) -> TasksFilter {
    match f {
        TasksFilter::Active => TasksFilter::Terminal,
        TasksFilter::Terminal => TasksFilter::All,
        TasksFilter::All => TasksFilter::Active,
    }
}

/// Whether the filter shows a task in `state`.
pub open spec fn filter_matches(f: TasksFilter, state: TaskState) -> bool {
    match f {
        TasksFilter::Active => !state_is_terminal(state),
        TasksFilter::Terminal => state_is_terminal(state),
        TasksFilter::All => true,
    }
}

impl TasksFilter {
    /// The filter that shows the tasks of an overview scope.
    pub fn from_scope(scope: OverviewScope) -> (r: Self)
        ensures
            r == filter_of_scope(scope),
    {
        match scope {
            OverviewScope::Terminal => TasksFilter::Terminal,
            OverviewScope::NonTerminal => TasksFilter::Active,
            OverviewScope::All => TasksFilter::All,
        }
    }

    /// The filter after this one: active, terminal, all, and round again.
    pub fn next(self) -> (r: Self)
        ensures
            r == next_filter(self),
    {
        match self {
            TasksFilter::Active => TasksFilter::Terminal,
            TasksFilter::Terminal => TasksFilter::All,
            TasksFilter::All => TasksFilter::Active,
        }
    }

    pub fn label(self) -> (r: &'static str)
        ensures
            self == TasksFilter::Active ==> r@ == "active"@,
            self == TasksFilter::Terminal ==> r@ == "terminal"@,
            self == TasksFilter::All ==> r@ == "all"@,
    {
        match self {
            TasksFilter::Active => "active",
            TasksFilter::Terminal => "terminal",
            TasksFilter::All => "all",
        }
    }

    pub fn matches(self, state: &TaskState) -> (r: bool)
        ensures
            r == filter_matches(self, *state),
    {
        match self {
            TasksFilter::Active => !state.is_terminal(),
            TasksFilter::Terminal => state.is_terminal(),
            TasksFilter::All => true,
        }
    }
}

/// Cycling the filter comes back after three steps; the active and the
/// terminal filter split the tasks between them, and the filter of a scope
/// shows what the scope covers.
pub proof fn lemma_filter_cycle(f: TasksFilter, state: TaskState, scope: OverviewScope)
    ensures
        next_filter(next_filter(next_filter(f))) == f,
        next_filter(f) != f,
        filter_matches(TasksFilter::Active, state) != filter_matches(TasksFilter::Terminal, state),
        filter_matches(TasksFilter::All, state),
        filter_matches(filter_of_scope(scope), state) == crate::model::scope_matches(state, scope),
{
}

/// The overview's state: the tab shown, the task filter and the selected
/// task's position in the filtered list.
#[derive(Debug, Clone, Copy, PartialEq, Eq, Structural)]
pub struct AppState {
    pub tab: Tab,
    pub tasks_filter: TasksFilter,
    pub tasks_selected: usize,
}

impl Default for AppState {
    /// The task tab, showing active tasks, the first selected.
    fn default() -> (r: Self)
        ensures
            r == (AppState { tab: Tab::Tasks, tasks_filter: TasksFilter::Active, tasks_selected: 0 }),
    {
        AppState { tab: Tab::Tasks, tasks_filter: TasksFilter::Active, tasks_selected: 0 }
    }
}

/// `index`, kept within a list of `len` items (0 for an empty list).
pub open spec fn clamp_index_spec(index: int, len: int) -> int {
    if len == 0 {
        0
    } else if index < len - 1 {
        index
    } else {
        len - 1
    }
}

pub fn clamp_index(index: usize, len: usize) -> (r: usize)
    ensures
        r == clamp_index_spec(index as int, len as int),
{
    if len == 0 {
        0
    } else if index < len - 1 {
        index
    } else {
        len - 1
    }
}

/// The selection after moving `delta` rows from `selected` in a list of
/// `len`, stopping at either end.
pub open spec fn move_target(selected: int, len: int, delta: int) -> int {
    if len == 0 {
        0
    } else if selected + delta < 0 {
        0
    } else if selected + delta > len - 1 {
        len - 1
    } else {
        selected + delta
    }
}

/// Moves the selection `delta` rows, stopping at the ends of the list.
/// The selection is read as an `isize`, so it and the sum must fit one.
pub fn move_selection(selected: &mut usize, len: usize, delta: isize)
    requires
        *old(selected) <= isize::MAX,
        *old(selected) + delta <= isize::MAX,
    ensures
        *final(selected) == move_target(*old(selected) as int, len as int, delta as int),
{
    if len == 0 {
        *selected = 0;
        return;
    }
    let next: isize = *selected as isize + delta;
    if next < 0 {
        *selected = 0;
    } else if next as usize > len - 1 {
        *selected = len - 1;
    } else {
        *selected = next as usize;
    }
}

/// Moving the selection keeps it within a non-empty list, and moving back
/// by the same amount from inside the list returns to where it was.
pub proof fn lemma_move_selection(selected: int, len: int, delta: int)
    requires
        len > 0,
    ensures
        0 <= move_target(selected, len, delta) < len,
        0 <= selected < len && 0 <= selected + delta < len ==> move_target(
            move_target(selected, len, delta),
            len,
            -delta,
        ) == selected,
        0 <= selected ==> 0 <= clamp_index_spec(selected, len) < len,
{
}

impl AppState {
    /// Keeps the selected task within a list of `tasks_len` tasks.
    pub fn clamp_to(&mut self, tasks_len: usize)
        ensures
            *final(self) == (AppState {
                tasks_selected: clamp_index_spec(old(self).tasks_selected as int, tasks_len as int) as usize,
                ..*old(self)
            }),
    {
        self.tasks_selected = clamp_index(self.tasks_selected, tasks_len);
    }
}

/// What the overview does after a key press.
#[derive(Debug)]
pub enum KeyAction {
    Nothing,
    Quit,
    Refresh,
    FocusSession(String),
    Stop { id: String, kill: bool },
}

pub open spec fn other_tab(t: Tab) -> Tab {
    match t {
        Tab::Tasks => Tab::Stats,
        Tab::Stats => Tab::Tasks,
    }
}

/// How far a key moves the selection, for the keys that move it.
pub open spec fn key_delta(k: Key) -> Option<int> {
    match k {
        Key::Up | Key::Char('k') => Some(-1),
        Key::Down | Key::Char('j') => Some(1),
        Key::PageUp => Some(-8),
        Key::PageDown => Some(8),
        _ => None,
    }
}

/// The selected task of the list `f` shows, if the selection is in it.
pub open spec fn selected_in(data: DashboardData, f: TasksFilter, selected: int) -> Option<TaskRecord> {
    let pos = filter_positions(data.all_tasks@, f);
    if 0 <= selected < pos.len() {
        Some(data.all_tasks@[pos[selected]])
    } else {
        None
    }
}

/// What a key press does to the overview: quit keys quit; left/right, `h`,
/// `l` and Tab switch tabs; `r` refreshes. On the task tab, `f` cycles the
/// filter, up/down, `k`/`j` and the page keys move the selection, Home and
/// End jump to the ends, Enter focuses the session of the selected task if
/// it is still active, and `x` / `X` stop or kill the selected task if it
/// is still active. The move keys read the selection as an `isize`, so
/// for them the selection moved by a page must fit one.
pub fn handle_key(app: &mut AppState, key: KeyPress, data: &DashboardData) -> (r: KeyAction)
    requires
        key_delta(key.key) is Some ==> old(app).tasks_selected + 8 <= isize::MAX,
    ensures
        ({
            let a = *old(app);
            let b = *final(app);
            let tasks = a.tab == Tab::Tasks;
            let len = filter_positions(data.all_tasks@, a.tasks_filter).len() as int;
            let chosen = selected_in(*data, a.tasks_filter, a.tasks_selected as int);
            let live = chosen matches Some(t) && !state_is_terminal(t.state);
            if is_quit(key) {
                r is Quit && b == a
            } else if key.key == Key::Left || key.key == Key::Char('h') || key.key == Key::Right
                || key.key == Key::Char('l') || key.key == Key::Tab {
                r is Nothing && b == (AppState { tab: other_tab(a.tab), ..a })
            } else if key.key == Key::Char('r') {
                r is Refresh && b == a
            } else if !tasks {
                r is Nothing && b == a
            } else if key.key == Key::Char('f') {
                let f = next_filter(a.tasks_filter);
                &&& r is Nothing
                &&& b == (AppState {
                    tasks_filter: f,
                    tasks_selected: clamp_index_spec(
                        a.tasks_selected as int,
                        filter_positions(data.all_tasks@, f).len() as int,
                    ) as usize,
                    ..a
                })
            } else if key.key == Key::Enter {
                &&& b == a
                &&& (live && chosen->0.session is Some) ==> (r matches KeyAction::FocusSession(s)
                    && s@ == chosen->0.session->0@)
                &&& !(live && chosen->0.session is Some) ==> r is Nothing
            } else if key.key == Key::Char('x') || key.key == Key::Char('X') {
                &&& b == a
                &&& live ==> (r matches KeyAction::Stop { id, kill } && id@ == chosen->0.id@ && kill
                    == (key.key == Key::Char('X')))
                &&& !live ==> r is Nothing
            } else if key_delta(key.key) is Some {
                r is Nothing && b == (AppState {
                    tasks_selected: move_target(
                        a.tasks_selected as int,
                        len,
                        key_delta(key.key)->0,
                    ) as usize,
                    ..a
                })
            } else if key.key == Key::Home {
                r is Nothing && b == (AppState { tasks_selected: 0, ..a })
            } else if key.key == Key::End {
                r is Nothing && b == (AppState {
                    tasks_selected: if len == 0 {
                        0
                    } else {
                        (len - 1) as usize
                    },
                    ..a
                })
            } else {
                r is Nothing && b == a
            }
        }),
{
    if quits(key) {
        return KeyAction::Quit;
    }
    match key.key {
        Key::Left | Key::Char('h') | Key::Right | Key::Char('l') | Key::Tab => {
            app.tab = match app.tab {
                Tab::Tasks => Tab::Stats,
                Tab::Stats => Tab::Tasks,
            };
            return KeyAction::Nothing;
        },
        Key::Char('r') => {
            return KeyAction::Refresh;
        },
        _ => {},
    }
    if app.tab != Tab::Tasks {
        return KeyAction::Nothing;
    }
    let tasks = data.filtered_tasks(app.tasks_filter);
    let len = tasks.len();
    match key.key {
        Key::Char('f') => {
            app.tasks_filter = app.tasks_filter.next();
            let n = data.filtered_tasks(app.tasks_filter).len();
            app.clamp_to(n);
            KeyAction::Nothing
        },
        Key::Enter => {
            if app.tasks_selected < len {
                let t = tasks[app.tasks_selected];
                if !t.state.is_terminal() {
                    match &t.session {
                        Some(s) => KeyAction::FocusSession(s.clone()),
                        None => KeyAction::Nothing,
                    }
                } else {
                    KeyAction::Nothing
                }
            } else {
                KeyAction::Nothing
            }
        },
        Key::Char('x') | Key::Char('X') => {
            if app.tasks_selected < len {
                let t = tasks[app.tasks_selected];
                if !t.state.is_terminal() {
                    KeyAction::Stop { id: t.id.clone(), kill: key.key == Key::Char('X') }
                } else {
                    KeyAction::Nothing
                }
            } else {
                KeyAction::Nothing
            }
        },
        Key::Up | Key::Char('k') => {
            move_selection(&mut app.tasks_selected, len, -1);
            KeyAction::Nothing
        },
        Key::Down | Key::Char('j') => {
            move_selection(&mut app.tasks_selected, len, 1);
            KeyAction::Nothing
        },
        Key::PageUp => {
            move_selection(&mut app.tasks_selected, len, -8);
            KeyAction::Nothing
        },
        Key::PageDown => {
            move_selection(&mut app.tasks_selected, len, 8);
            KeyAction::Nothing
        },
        Key::Home => {
            app.tasks_selected = 0;
            KeyAction::Nothing
        },
        Key::End => {
            app.tasks_selected = if len == 0 {
                0
            } else {
                len - 1
            };
            KeyAction::Nothing
        },
        _ => KeyAction::Nothing,
    }
}

} // verus!
