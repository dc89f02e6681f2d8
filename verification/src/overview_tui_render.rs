//! What the overview draws: the title and tab lines, the task table rows
//! and the window of them that fits, the detail panel, the stats cards and
//! the help line.
use crate::model::{Moment, TaskRecord};
use crate::overview_tui::{Tab, TasksFilter};
use crate::overview_tui_data::{active_count, terminal_count, TaskSummary};
use crate::overview_tui_helpers::{
    age_text, detail_lines_of, detail_rows, elapsed_seconds, metric_line, metric_spans,
    relative_time, task_detail_lines, truncate, truncate_spec,
    window_start, window_start_spec,
};
use crate::panes_support::{runtime_label, runtime_name, state_name, task_state_label};
use crate::style::{
    accent, bad, fg, fg_bold, fg_bold_underlined, good, line, muted, overview_text, plain, span,
    span_owned, span_views, text_cell, text_cells, warn, Rgb, StyledLine, TableRow,
    TextStyle,
};
use crate::text::{append_chars, append_str, decimal, decimal_chars, from_chars};
use vstd::prelude::*;

verus! {

/// From this width on, panels stand side by side.
pub const WIDE_BREAKPOINT: u16 = 124;

/// Whether an area of `width` columns lays its panels side by side.
pub fn is_wide(width: u16) -> (r: bool)
    ensures
        r == (width >= 124),
{
    width >= WIDE_BREAKPOINT
}

/// The title line: `SWARMUX TASKS`.
pub open spec fn title_spans_spec() -> Seq<(Seq<char>, TextStyle)> {
    seq![("SWARMUX"@, fg_bold(accent())), (" "@, plain()), ("TASKS"@, fg_bold(overview_text()))]
}

pub fn title_line() -> (r: StyledLine)
    ensures
        span_views(r.spans@) == title_spans_spec(),
        r.style == plain(),
{
    let r = line(
        vec![span("SWARMUX", fg_bold(accent())), span(" ", plain()), span("TASKS", fg_bold(overview_text()))],
    );
    assert(span_views(r.spans@) =~= title_spans_spec());
    r
}

/// The tab line: the shown tab accented and underlined, the other muted.
pub open spec fn tabs_spans_spec(tab: Tab) -> Seq<(Seq<char>, TextStyle)> {
    let on = fg_bold_underlined(accent());
    let off = fg(muted());
    seq![
        ("Tasks"@, if tab == Tab::Tasks { on } else { off }),
        (" \u{2502} "@, fg(muted())),
        ("Stats"@, if tab == Tab::Stats { on } else { off }),
    ]
}

pub fn tabs_line(tab: Tab) -> (r: StyledLine)
    ensures
        span_views(r.spans@) == tabs_spans_spec(tab),
        r.style == plain(),
{
    let on = fg_bold_underlined(accent());
    let off = fg(muted());
    let r = line(
        vec![
            span("Tasks", if tab == Tab::Tasks { on } else { off }),
            span(" \u{2502} ", fg(muted())),
            span("Stats", if tab == Tab::Stats { on } else { off }),
        ],
    );
    assert(span_views(r.spans@) =~= tabs_spans_spec(tab));
    r
}

/// The help line, ending in how many tasks the list shows of all.
pub open spec fn footer_spans_spec(filtered: nat, total: nat) -> Seq<(Seq<char>, TextStyle)> {
    seq![
        ("j/k"@, fg_bold(accent())),
        (" move "@, fg(muted())),
        ("h/l"@, fg_bold(accent())),
        (" tabs "@, fg(muted())),
        ("tab"@, fg_bold(accent())),
        (" switch "@, fg(muted())),
        ("f"@, fg_bold(good())),
        (" filter "@, fg(muted())),
        ("enter"@, fg_bold(good())),
        (" switch "@, fg(muted())),
        ("x"@, fg_bold(warn())),
        (" stop "@, fg(muted())),
        ("X"@, fg_bold(bad())),
        (" kill "@, fg(muted())),
        ("r"@, fg_bold(good())),
        (" refresh "@, fg(muted())),
        ("q"@, fg_bold(bad())),
        (" quit "@, fg(muted())),
        (decimal(filtered) + " tasks / "@ + decimal(total) + " total"@, fg_bold(warn())),
    ]
}

pub fn footer_line(filtered: usize, total: usize) -> (r: StyledLine)
    ensures
        span_views(r.spans@) == footer_spans_spec(filtered as nat, total as nat),
        r.style == plain(),
{
    let mut count = decimal_chars(filtered as u64);
    append_str(&mut count, " tasks / ");
    append_chars(&mut count, &decimal_chars(total as u64));
    append_str(&mut count, " total");
    let r = line(
        vec![
            span("j/k", fg_bold(accent())),
            span(" move ", fg(muted())),
            span("h/l", fg_bold(accent())),
            span(" tabs ", fg(muted())),
            span("tab", fg_bold(accent())),
            span(" switch ", fg(muted())),
            span("f", fg_bold(good())),
            span(" filter ", fg(muted())),
            span("enter", fg_bold(good())),
            span(" switch ", fg(muted())),
            span("x", fg_bold(warn())),
            span(" stop ", fg(muted())),
            span("X", fg_bold(bad())),
            span(" kill ", fg(muted())),
            span("r", fg_bold(good())),
            span(" refresh ", fg(muted())),
            span("q", fg_bold(bad())),
            span(" quit ", fg(muted())),
            span_owned(from_chars(&count), fg_bold(warn())),
        ],
    );
    assert(span_views(r.spans@) =~= footer_spans_spec(filtered as nat, total as nat));
    r
}

/// The labels, values and colours of the state card.
pub open spec fn state_card_rows(s: TaskSummary) -> Seq<(Seq<char>, nat, Rgb)> {
    seq![
        ("total"@, s.total as nat, good()),
        ("active"@, active_count(s) as nat, accent()),
        ("terminal"@, terminal_count(s) as nat, warn()),
        ("queued"@, s.queued as nat, muted()),
        ("dispatching"@, s.dispatching as nat, warn()),
        ("running"@, s.running as nat, good()),
        ("waiting"@, s.waiting_input as nat, warn()),
        ("succeeded"@, s.succeeded as nat, good()),
        ("failed"@, s.failed as nat, bad()),
        ("canceled"@, s.canceled as nat, muted()),
    ]
}

/// `lines` are the metric lines of `rows`.
pub open spec fn metric_lines_of(lines: Seq<StyledLine>, rows: Seq<(Seq<char>, nat, Rgb)>) -> bool {
    &&& lines.len() == rows.len()
    &&& forall|k: int|
        0 <= k < lines.len() ==> span_views((#[trigger] lines[k]).spans@) == metric_spans(
            rows[k].0,
            rows[k].1,
            rows[k].2,
        ) && lines[k].style == plain()
}

/// The state card of the stats tab: totals and the count of each state.
pub fn state_card_lines(s: &TaskSummary) -> (r: Vec<StyledLine>)
    requires
        active_count(*s) <= usize::MAX,
        terminal_count(*s) <= usize::MAX,
    ensures
        metric_lines_of(r@, state_card_rows(*s)),
{
    let r = vec![
        metric_line("total", s.total, good()),
        metric_line("active", s.active(), accent()),
        metric_line("terminal", s.terminal(), warn()),
        metric_line("queued", s.queued, muted()),
        metric_line("dispatching", s.dispatching, warn()),
        metric_line("running", s.running, good()),
        metric_line("waiting", s.waiting_input, warn()),
        metric_line("succeeded", s.succeeded, good()),
        metric_line("failed", s.failed, bad()),
        metric_line("canceled", s.canceled, muted()),
    ];
    proof {
        let rows = state_card_rows(*s);
        assert forall|k: int| 0 <= k < r@.len() implies span_views((#[trigger] r@[k]).spans@)
            == metric_spans(rows[k].0, rows[k].1, rows[k].2) && r@[k].style == plain() by {
            if k == 0 {
            } else if k == 1 {
            } else if k == 2 {
            } else if k == 3 {
            } else if k == 4 {
            } else if k == 5 {
            } else if k == 6 {
            } else if k == 7 {
            } else if k == 8 {
            } else {
            }
        }
    }
    r
}

/// What the list says when the filter shows no task.
pub open spec fn empty_message_spec(filter: TasksFilter) -> Seq<char> {
    match filter {
        TasksFilter::Active => "no active tasks"@,
        TasksFilter::Terminal => "no terminal tasks"@,
        TasksFilter::All => "no tasks"@,
    }
}

pub fn empty_tasks_message(filter: TasksFilter) -> (r: &'static str)
    ensures
        r@ == empty_message_spec(filter),
{
    match filter {
        TasksFilter::Active => "no active tasks",
        TasksFilter::Terminal => "no terminal tasks",
        TasksFilter::All => "no tasks",
    }
}

/// The lines of an empty task list: the message, then how to change the
/// filter, both muted.
pub fn empty_table_lines(filter: TasksFilter) -> (r: Vec<StyledLine>)
    ensures
        r@.len() == 2,
        span_views(r@[0].spans@) == seq![(empty_message_spec(filter), fg(muted()))],
        span_views(r@[1].spans@) == seq![("press f to cycle active / terminal / all"@, fg(muted()))],
{
    let a = line(vec![span(empty_tasks_message(filter), fg(muted()))]);
    let b = line(vec![span("press f to cycle active / terminal / all", fg(muted()))]);
    assert(span_views(a.spans@) =~= seq![(empty_message_spec(filter), fg(muted()))]);
    assert(span_views(b.spans@) =~= seq![("press f to cycle active / terminal / all"@, fg(muted()))]);
    vec![a, b]
}

/// The texts of a task's row, with the task updated `age` ago: marker,
/// age, state, runtime, repository, the session when shown, and title.
pub open spec fn task_row_texts(t: TaskRecord, selected: bool, show_session: bool, age: Seq<char>) -> Seq<Seq<char>> {
    let head = seq![
        if selected { "\u{25b6}"@ } else { "\u{b7}"@ },
        age,
        state_name(t.state),
        runtime_name(t.runtime),
        truncate_spec(t.repo@, 10),
    ];
    let with_session = if show_session {
        head.push(
            truncate_spec(
                match t.session {
                    Some(s) => s@,
                    None => "-"@,
                },
                12,
            ),
        )
    } else {
        head
    };
    with_session.push(truncate_spec(t.title@, if show_session { 36 } else { 40 }))
}

pub open spec fn task_row_style(selected: bool) -> TextStyle {
    if selected {
        fg_bold_underlined(accent())
    } else {
        fg(overview_text())
    }
}

/// `r` is the row of `t` as drawn at some time `now` after the epoch.
pub open spec fn task_row_of(r: TableRow, t: TaskRecord, selected: bool, show_session: bool) -> bool {
    &&& exists|now: Moment|
        now.spec_secs() >= 0 && #[trigger] text_cells(
            r.cells@,
            task_row_texts(t, selected, show_session, age_text(elapsed_seconds(t.updated_at, now))),
        )
    &&& r.style == task_row_style(selected)
}

pub fn task_row(task: &TaskRecord, selected: bool, show_session: bool) -> (r: TableRow)
    ensures
        task_row_of(r, *task, selected, show_session),
{
    let age = relative_time(task.updated_at);
    let ghost now = choose|now: Moment|
        now.spec_secs() >= 0 && age@ == age_text(elapsed_seconds(task.updated_at, now));
    let ghost texts = task_row_texts(*task, selected, show_session, age@);
    let mut cells: Vec<StyledLine> = vec![
        text_cell(String::from_str(if selected { "\u{25b6}" } else { "\u{b7}" })),
        text_cell(age),
        text_cell(String::from_str(task_state_label(&task.state))),
        text_cell(String::from_str(runtime_label(task))),
        text_cell(truncate(task.repo.as_str(), 10)),
    ];
    if show_session {
        let session: &str = match &task.session {
            Some(s) => s.as_str(),
            None => "-",
        };
        cells.push(text_cell(truncate(session, 12)));
    }
    cells.push(text_cell(truncate(task.title.as_str(), if show_session { 36 } else { 40 })));
    let style = if selected {
        fg_bold_underlined(accent())
    } else {
        fg(overview_text())
    };
    let r = TableRow { cells, style };
    assert(text_cells(r.cells@, texts));
    r
}

/// The rows of a table of `inner_height` lines, the header aside (at
/// least one).
pub fn visible_rows(inner_height: u16) -> (r: usize)
    ensures
        r == (if inner_height >= 3 { inner_height - 2 } else { 1 }),
{
    if inner_height >= 3 {
        (inner_height - 2) as usize
    } else {
        1
    }
}

/// The rows of the task table: the window of `visible_rows` tasks around
/// the selected one, each drawn by [`task_row`].
pub fn task_table_rows(
    tasks: &Vec<&TaskRecord>,
    selected: usize,
    visible_rows: usize,
    show_session: bool,
) -> (r: Vec<TableRow>)
    ensures
        ({
            let start = window_start_spec(selected as int, visible_rows as int, tasks@.len() as int);
            let end = if start + visible_rows < tasks@.len() {
                start + visible_rows
            } else {
                tasks@.len() as int
            };
            &&& r@.len() == end - start
            &&& forall|k: int|
                0 <= k < r@.len() ==> task_row_of(
                    #[trigger] r@[k],
                    *tasks@[start + k],
                    start + k == selected,
                    show_session,
                )
        }),
{
    let start = window_start(selected, visible_rows, tasks.len());
    proof {
        if !(tasks@.len() <= visible_rows || visible_rows == 0) {
            assert(start <= tasks@.len() - visible_rows);
        }
    }
    let room = tasks.len() - start;
    let end = if visible_rows < room {
        start + visible_rows
    } else {
        tasks.len()
    };
    let mut out: Vec<TableRow> = Vec::new();
    let mut i = start;
    while i < end
        invariant
            start <= i <= end <= tasks@.len(),
            out@.len() == i - start,
            forall|k: int|
                0 <= k < out@.len() ==> task_row_of(
                    #[trigger] out@[k],
                    *tasks@[start + k],
                    start + k == selected,
                    show_session,
                ),
        decreases end - i,
    {
        out.push(task_row(tasks[i], i == selected, show_session));
        i += 1;
    }
    out
}

/// The detail panel: the selected task's details, or a muted line saying
/// that none is selected.
pub fn detail_panel_lines(task: Option<&TaskRecord>) -> (r: Vec<StyledLine>)
    ensures
        task matches Some(t) ==> detail_lines_of(r@, detail_rows(*t)),
        task is None ==> r@.len() == 1 && span_views(r@[0].spans@) == seq![
            ("no task selected"@, fg(muted())),
        ],
{
    match task {
        Some(t) => task_detail_lines(t),
        None => {
            let l = line(vec![span("no task selected", fg(muted()))]);
            assert(span_views(l.spans@) =~= seq![("no task selected"@, fg(muted()))]);
            vec![l]
        },
    }
}

} // verus!
