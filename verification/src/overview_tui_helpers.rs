//! Text helpers of the task overview: cutting text, scrolling windows,
//! times, and the lines of the status bar and the detail panel.
use crate::config::TaskRuntime;
use crate::model::{
    format_utc, utc_now, utc_seconds_between, utc_timestamp_text, whole_seconds_between, Moment,
    TaskMode, TaskRecord, TaskState,
};
use crate::overview_tui::TasksFilter;
use crate::overview_tui_data::{active_count, DashboardData};
use crate::panes_support::{runtime_label, runtime_name, state_name, task_state_label};
use crate::style::{
    accent, bad, fg, fg_bold, good, line, muted, overview_text, plain, span, span_owned,
    span_views, teal, violet, warn, Rgb, StyledLine, StyledSpan, TextStyle,
};
use crate::text::{
    append_chars, append_str, chars_of, decimal, decimal_chars, from_chars, join_chars, join_seqs,
    repeat_char,
    take_chars,
};
use vstd::prelude::*;

verus! {

/// `value` when it has at most `max` characters; else its first
/// `max - 3` characters (none when `max < 3`) followed by `...`.
pub open spec fn truncate_spec(value: Seq<char>, max: nat) -> Seq<char> {
    if value.len() <= max {
        value
    } else {
        value.take(if max >= 3 { max - 3 } else { 0 }) + "..."@
    }
}

pub fn truncate(value: &str, max: usize) -> (r: String)
    ensures
        r@ == truncate_spec(value@, max as nat),
{
    let chars = chars_of(value);
    if chars.len() <= max {
        return String::from_str(value);
    }
    let keep = if max >= 3 {
        max - 3
    } else {
        0
    };
    let mut out = take_chars(&chars, keep);
    append_str(&mut out, "...");
    from_chars(&out)
}

/// The first row shown of a list of `len` rows in a window of
/// `visible_rows` that keeps `selected` near its middle.
pub open spec fn window_start_spec(selected: int, visible_rows: int, len: int) -> int {
    if len <= visible_rows || visible_rows == 0 {
        0
    } else {
        let from = if selected - visible_rows / 2 >= 0 {
            selected - visible_rows / 2
        } else {
            0
        };
        if from < len - visible_rows {
            from
        } else {
            len - visible_rows
        }
    }
}

pub fn window_start(selected: usize, visible_rows: usize, len: usize) -> (r: usize)
    ensures
        r == window_start_spec(selected as int, visible_rows as int, len as int),
{
    if len <= visible_rows || visible_rows == 0 {
        return 0;
    }
    let half = visible_rows / 2;
    let from = if selected >= half {
        selected - half
    } else {
        0
    };
    if from < len - visible_rows {
        from
    } else {
        len - visible_rows
    }
}

/// The scrolled window always shows the selected row, and never runs past
/// the end of the list.
pub proof fn lemma_window_shows_selected(selected: int, visible_rows: int, len: int)
    requires
        0 <= selected < len,
        visible_rows > 0,
    ensures
        window_start_spec(selected, visible_rows, len) <= selected < window_start_spec(
            selected,
            visible_rows,
            len,
        ) + visible_rows,
        len > visible_rows ==> window_start_spec(selected, visible_rows, len) + visible_rows <= len,
        window_start_spec(selected, visible_rows, len) >= 0,
{
}

/// How long ago, from a number of seconds: seconds under a minute, minutes
/// under an hour, hours under a day, else days (`42s`, `5m`, `3h`, `2d`).
pub open spec fn age_text(seconds: nat) -> Seq<char> {
    if seconds < 60 {
        decimal(seconds) + "s"@
    } else if seconds / 60 < 60 {
        decimal(seconds / 60) + "m"@
    } else if seconds / 3600 < 24 {
        decimal(seconds / 3600) + "h"@
    } else {
        decimal(seconds / 86400) + "d"@
    }
}

/// The whole seconds from `moment` to `now` as chrono counts them, none
/// when `moment` is later.
pub open spec fn elapsed_seconds(moment: Moment, now: Moment) -> nat {
    let d = utc_seconds_between(now.spec_secs(), now.spec_nanos(), moment.spec_secs(), moment.spec_nanos());
    if d > 0 {
        d as nat
    } else {
        0
    }
}

pub fn age_label(seconds: u64) -> (r: String)
    ensures
        r@ == age_text(seconds as nat),
{
    let (n, unit): (u64, &str) = if seconds < 60 {
        (seconds, "s")
    } else if seconds / 60 < 60 {
        (seconds / 60, "m")
    } else if seconds / 60 / 60 < 24 {
        (seconds / 60 / 60, "h")
    } else {
        (seconds / 60 / 60 / 24, "d")
    };
    proof {
        assert(seconds / 60 / 60 == seconds / 3600) by (nonlinear_arith);
        assert(seconds / 60 / 60 / 24 == seconds / 86400) by (nonlinear_arith);
    }
    let mut out = decimal_chars(n);
    append_str(&mut out, unit);
    let r = from_chars(&out);
    proof {
        reveal_strlit("s");
        reveal_strlit("m");
        reveal_strlit("h");
        reveal_strlit("d");
    }
    r
}

/// How long before `now` the time `moment` was, as [`age_text`].
pub fn relative_time_at(moment: Moment, now: Moment) -> (r: String)
    ensures
        r@ == age_text(elapsed_seconds(moment, now)),
{
    moment.assert_valid();
    now.assert_valid();
    let diff = whole_seconds_between(now, moment);
    let seconds: u64 = if diff > 0 {
        diff as u64
    } else {
        0
    };
    age_label(seconds)
}

/// How long ago `moment` was, by the clock.
pub fn relative_time(moment: Moment) -> (r: String)
    ensures
        exists|now: Moment| now.spec_secs() >= 0 && r@ == age_text(elapsed_seconds(moment, now)),
{
    let now = utc_now();
    relative_time_at(moment, now)
}

/// The text chrono writes for an instant (`%Y-%m-%d %H:%M:%S UTC`).
pub open spec fn timestamp_text(m: Moment) -> Seq<char> {
    utc_timestamp_text(m.spec_secs(), m.spec_nanos())
}

pub fn format_timestamp(moment: Moment) -> (r: String)
    ensures
        r@ == timestamp_text(moment),
{
    moment.assert_valid();
    format_utc(moment)
}

pub open spec fn mode_name(m: TaskMode) -> Seq<char> {
    match m {
        TaskMode::Auto => "auto"@,
        TaskMode::Manual => "manual"@,
    }
}

pub fn mode_label(mode: &TaskMode) -> (r: &'static str)
    ensures
        r@ == mode_name(*mode),
{
    match mode {
        TaskMode::Auto => "auto",
        TaskMode::Manual => "manual",
    }
}

/// The task at position `selected` of the list, if there is one.
pub fn selected_task<'a>(tasks: &Vec<&'a TaskRecord>, selected: usize) -> (r: Option<&'a TaskRecord>)
    ensures
        selected < tasks@.len() ==> r == Some(tasks@[selected as int]),
        selected >= tasks@.len() ==> r is None,
{
    if selected < tasks.len() {
        Some(tasks[selected])
    } else {
        None
    }
}

/// The colour of a task state: finished well or running green, waiting
/// or dispatching yellow, failed red, queued or canceled muted.
pub open spec fn state_color_spec(s: TaskState) -> Rgb {
    match s {
        TaskState::Queued => muted(),
        TaskState::Dispatching => warn(),
        TaskState::Running => good(),
        TaskState::WaitingInput => warn(),
        TaskState::Succeeded => good(),
        TaskState::Failed => bad(),
        TaskState::Canceled => muted(),
    }
}

pub fn state_color(state: &TaskState) -> (r: Rgb)
    ensures
        r == state_color_spec(*state),
{
    match state {
        TaskState::Queued => muted(),
        TaskState::Dispatching => warn(),
        TaskState::Running => good(),
        TaskState::WaitingInput => warn(),
        TaskState::Succeeded => good(),
        TaskState::Failed => bad(),
        TaskState::Canceled => muted(),
    }
}

pub open spec fn runtime_color_spec(r: TaskRuntime) -> Rgb {
    match r {
        TaskRuntime::Headless => accent(),
        TaskRuntime::Mirrored => teal(),
        TaskRuntime::Tui => good(),
    }
}

pub fn runtime_color(task: &TaskRecord) -> (r: Rgb)
    ensures
        r == runtime_color_spec(task.runtime),
{
    match task.runtime {
        TaskRuntime::Headless => accent(),
        TaskRuntime::Mirrored => teal(),
        TaskRuntime::Tui => good(),
    }
}

/// `t` padded with spaces on the right to at least `width` characters.
pub open spec fn pad_right(t: Seq<char>, width: nat) -> Seq<char> {
    if t.len() >= width {
        t
    } else {
        t + Seq::new((width - t.len()) as nat, |_i: int| ' ')
    }
}

/// `t` padded with spaces on the left to at least `width` characters.
pub open spec fn pad_left(t: Seq<char>, width: nat) -> Seq<char> {
    if t.len() >= width {
        t
    } else {
        Seq::new((width - t.len()) as nat, |_i: int| ' ') + t
    }
}

fn padded_right(t: &Vec<char>, width: usize) -> (r: Vec<char>)
    ensures
        r@ == pad_right(t@, width as nat),
{
    let mut out = t.clone();
    assert(out@ == t@);
    if t.len() < width {
        let pad = repeat_char(' ', width - t.len());
        append_chars(&mut out, &pad);
    }
    out
}

fn padded_left(t: &Vec<char>, width: usize) -> (r: Vec<char>)
    ensures
        r@ == pad_left(t@, width as nat),
{
    if t.len() >= width {
        let out = t.clone();
        assert(out@ == t@);
        return out;
    }
    let mut out = repeat_char(' ', width - t.len());
    append_chars(&mut out, t);
    out
}

/// A line of the detail panel: the label padded to ten columns, muted,
/// then the value in bold colour.
pub open spec fn detail_spans(label: Seq<char>, value: Seq<char>, color: Rgb) -> Seq<
    (Seq<char>, TextStyle),
> {
    seq![(pad_right(label, 10), fg(muted())), (value, fg_bold(color))]
}

pub fn detail_line(label: &str, value: String, color: Rgb) -> (r: StyledLine)
    ensures
        span_views(r.spans@) == detail_spans(label@, value@, color),
        r.style == plain(),
{
    let l = from_chars(&padded_right(&chars_of(label), 10));
    let r = line(vec![span_owned(l, fg(muted())), span_owned(value, fg_bold(color))]);
    assert(span_views(r.spans@) =~= detail_spans(label@, value@, color));
    r
}

/// Width of the labels of the stats cards.
pub const METRIC_LABEL_WIDTH: usize = 13;

/// A line of a stats card: the label cut and padded to its column, muted,
/// then the value right-aligned in five columns, bold.
pub open spec fn metric_spans(label: Seq<char>, value: nat, color: Rgb) -> Seq<(Seq<char>, TextStyle)> {
    seq![
        (pad_right(truncate_spec(label, 13), 13), fg(muted())),
        (pad_left(decimal(value), 5), fg_bold(color)),
    ]
}

pub fn metric_line(label: &str, value: usize, color: Rgb) -> (r: StyledLine)
    ensures
        span_views(r.spans@) == metric_spans(label@, value as nat, color),
        r.style == plain(),
{
    let cut = truncate(label, METRIC_LABEL_WIDTH);
    let l = from_chars(&padded_right(&chars_of(cut.as_str()), METRIC_LABEL_WIDTH));
    let v = from_chars(&padded_left(&decimal_chars(value as u64), 5));
    let r = line(vec![span_owned(l, fg(muted())), span_owned(v, fg_bold(color))]);
    assert(span_views(r.spans@) =~= metric_spans(label@, value as nat, color));
    r
}

/// A line per counted label, or a muted `none` when there are none.
pub fn render_counts(counts: &Vec<(String, usize)>, color: Rgb) -> (r: Vec<StyledLine>)
    ensures
        counts@.len() == 0 ==> r@.len() == 1 && span_views(r@[0].spans@) == seq![
            ("none"@, fg(muted())),
        ],
        counts@.len() > 0 ==> r@.len() == counts@.len() && forall|k: int|
            0 <= k < r@.len() ==> span_views((#[trigger] r@[k]).spans@) == metric_spans(
                counts@[k].0@,
                counts@[k].1 as nat,
                color,
            ),
        forall|k: int| 0 <= k < r@.len() ==> (#[trigger] r@[k]).style == plain(),
{
    if counts.len() == 0 {
        let l = line(vec![span("none", fg(muted()))]);
        assert(span_views(l.spans@) =~= seq![("none"@, fg(muted()))]);
        return vec![l];
    }
    let mut out: Vec<StyledLine> = Vec::new();
    for i in 0..counts.len()
        invariant
            out@.len() == i,
            forall|k: int|
                0 <= k < i ==> span_views((#[trigger] out@[k]).spans@) == metric_spans(
                    counts@[k].0@,
                    counts@[k].1 as nat,
                    color,
                ) && out@[k].style == plain(),
    {
        out.push(metric_line(counts[i].0.as_str(), counts[i].1, color));
    }
    out
}

/// The status bar: with a filter, its name and the selected task's place
/// (`3/7 title`); then the number of tasks, the active ones, and how long
/// ago the data was read.
pub open spec fn status_spans_spec(
    filter: Option<TasksFilter>,
    selected_index: nat,
    selected_total: nat,
    selected: Option<TaskRecord>,
    total: nat,
    active: nat,
    generated_at: Moment,
    now: Moment,
) -> Seq<(Seq<char>, TextStyle)> {
    let focus = match selected {
        Some(t) => truncate_spec(t.title@, 30),
        None => "none"@,
    };
    let head = match filter {
        Some(f) => {
            let ordinal: nat = if selected_total == 0 {
                0
            } else if selected_index < selected_total - 1 {
                selected_index + 1
            } else {
                selected_total
            };
            seq![
                ("filter "@, fg(muted())),
                (filter_name(f), fg(violet())),
                ("  "@, plain()),
                ("selected "@, fg(muted())),
                (decimal(ordinal) + "/"@ + decimal(selected_total) + " "@ + focus, fg_bold(accent())),
                ("  "@, plain()),
            ]
        },
        None => Seq::empty(),
    };
    head + seq![
        ("total "@, fg(muted())),
        (decimal(total), fg(warn())),
        ("  "@, plain()),
        ("active "@, fg(muted())),
        (decimal(active), fg(good())),
        ("  "@, plain()),
        ("updated "@, fg(muted())),
        (age_text(elapsed_seconds(generated_at, now)), fg(teal())),
    ]
}

pub open spec fn filter_name(f: TasksFilter) -> Seq<char> {
    match f {
        TasksFilter::Active => "active"@,
        TasksFilter::Terminal => "terminal"@,
        TasksFilter::All => "all"@,
    }
}

pub open spec fn opt_task(t: Option<&TaskRecord>) -> Option<TaskRecord> {
    match t {
        Some(x) => Some(*x),
        None => None,
    }
}

pub fn status_spans(
    filter: Option<TasksFilter>,
    selected_index: usize,
    selected_total: usize,
    selected: Option<&TaskRecord>,
    data: &DashboardData,
) -> (r: Vec<StyledSpan>)
    requires
        active_count(data.all_summary) <= usize::MAX,
    ensures
        exists|now: Moment|
            now.spec_secs() >= 0 && span_views(r@) == #[trigger] status_spans_spec(
                filter,
                selected_index as nat,
                selected_total as nat,
                opt_task(selected),
                data.all_summary.total as nat,
                active_count(data.all_summary) as nat,
                data.generated_at,
                now,
            ),
{
    let focus = match selected {
        Some(t) => truncate(t.title.as_str(), 30),
        None => String::from_str("none"),
    };
    let mut spans: Vec<StyledSpan> = Vec::new();
    match filter {
        Some(f) => {
            let ordinal: usize = if selected_total == 0 {
                0
            } else if selected_index < selected_total - 1 {
                selected_index + 1
            } else {
                selected_total
            };
            let mut text = decimal_chars(ordinal as u64);
            append_str(&mut text, "/");
            append_chars(&mut text, &decimal_chars(selected_total as u64));
            append_str(&mut text, " ");
            append_str(&mut text, focus.as_str());
            spans.push(span("filter ", fg(muted())));
            spans.push(span(f.label(), fg(violet())));
            spans.push(span("  ", plain()));
            spans.push(span("selected ", fg(muted())));
            spans.push(span_owned(from_chars(&text), fg_bold(accent())));
            spans.push(span("  ", plain()));
        },
        None => {},
    }
    let ghost head = span_views(spans@);
    let active = data.all_summary.active();
    let age = relative_time(data.generated_at);
    let ghost now = choose|now: Moment|
        now.spec_secs() >= 0 && age@ == age_text(elapsed_seconds(data.generated_at, now));
    spans.push(span("total ", fg(muted())));
    spans.push(span_owned(from_chars(&decimal_chars(data.all_summary.total as u64)), fg(warn())));
    spans.push(span("  ", plain()));
    spans.push(span("active ", fg(muted())));
    spans.push(span_owned(from_chars(&decimal_chars(active as u64)), fg(good())));
    spans.push(span("  ", plain()));
    spans.push(span("updated ", fg(muted())));
    spans.push(span_owned(age, fg(teal())));
    proof {
        let want = status_spans_spec(
            filter,
            selected_index as nat,
            selected_total as nat,
            opt_task(selected),
            data.all_summary.total as nat,
            active_count(data.all_summary) as nat,
            data.generated_at,
            now,
        );
        assert(span_views(spans@) =~= want);
    }
    spans
}

/// The label, value and colour of each line of the detail panel.
pub open spec fn detail_rows(t: TaskRecord) -> Seq<(Seq<char>, Seq<char>, Rgb)> {
    let base = detail_base(t);
    let a = match t.session {
        Some(s) => base.push(("session"@, truncate_spec(s@, 32), teal())),
        None => base,
    };
    let b = match t.branch {
        Some(s) => a.push(("branch"@, truncate_spec(s@, 32), accent())),
        None => a,
    };
    let c = match t.worktree {
        Some(s) => b.push(("worktree"@, truncate_spec(s@, 40), overview_text())),
        None => b,
    };
    let d = match t.origin {
        Some(o) => c.push(
            ("origin"@, truncate_spec(o.session_name@ + " / "@ + o.pane_current_path@, 40), muted()),
        ),
        None => c,
    };
    let e = match t.finished_at {
        Some(f) => d.push(("finished"@, timestamp_text(f), muted())),
        None => d,
    };
    match t.last_error {
        Some(s) => e.push(("error"@, truncate_spec(s@, 48), bad())),
        None => e,
    }
}

/// `lines` are the detail lines of `rows`.
pub open spec fn detail_lines_of(lines: Seq<StyledLine>, rows: Seq<(Seq<char>, Seq<char>, Rgb)>) -> bool {
    &&& lines.len() == rows.len()
    &&& forall|k: int|
        0 <= k < lines.len() ==> span_views((#[trigger] lines[k]).spans@) == detail_spans(
            rows[k].0,
            rows[k].1,
            rows[k].2,
        ) && lines[k].style == plain()
}

fn join_words(words: &Vec<String>) -> (r: String)
    ensures
        r@ == join_seqs(crate::config::views(words@), " "@),
{
    let mut segs: Vec<Vec<char>> = Vec::new();
    for i in 0..words.len()
        invariant
            segs@.len() == i,
            forall|k: int| 0 <= k < i ==> (#[trigger] segs@[k])@ == words@[k]@,
    {
        segs.push(chars_of(words[i].as_str()));
    }
    let joined = join_chars(&segs, " ");
    assert(segs@.map_values(|v: Vec<char>| v@) =~= crate::config::views(words@));
    from_chars(&joined)
}

fn push_row(
    lines: &mut Vec<StyledLine>,
    Ghost(rows): Ghost<Seq<(Seq<char>, Seq<char>, Rgb)>>,
    label: &str,
    value: String,
    color: Rgb,
)
    requires
        detail_lines_of(old(lines)@, rows),
    ensures
        detail_lines_of(final(lines)@, rows.push((label@, value@, color))),
{
    let ghost v = value@;
    lines.push(detail_line(label, value, color));
    proof {
        let rs = rows.push((label@, v, color));
        assert forall|k: int| 0 <= k < lines@.len() implies span_views(
            (#[trigger] lines@[k]).spans@,
        ) == detail_spans(rs[k].0, rs[k].1, rs[k].2) && lines@[k].style == plain() by {
            if k < rows.len() {
                assert(lines@[k] == old(lines)@[k]);
            }
        }
    }
}

/// The lines every task has.
pub open spec fn detail_base(t: TaskRecord) -> Seq<(Seq<char>, Seq<char>, Rgb)> {
    seq![
        ("id"@, truncate_spec(t.id@, 26), accent()),
        ("state"@, state_name(t.state), state_color_spec(t.state)),
        ("runtime"@, runtime_name(t.runtime), runtime_color_spec(t.runtime)),
        ("mode"@, mode_name(t.mode), violet()),
        ("repo"@, truncate_spec(t.repo@, 28), good()),
        ("root"@, truncate_spec(t.repo_root@, 40), overview_text()),
        ("reason"@, truncate_spec(t.reason@, 36), warn()),
        ("created"@, timestamp_text(t.created_at), muted()),
        ("updated"@, timestamp_text(t.updated_at), muted()),
        ("command"@, truncate_spec(join_seqs(crate::config::views(t.command@), " "@), 48), overview_text()),
    ]
}

fn base_detail_lines(task: &TaskRecord) -> (r: Vec<StyledLine>)
    ensures
        detail_lines_of(r@, detail_base(*task)),
{
    let ghost t = *task;
    let mut lines: Vec<StyledLine> = Vec::new();
    let ghost r0: Seq<(Seq<char>, Seq<char>, Rgb)> = Seq::empty();
    push_row(&mut lines, Ghost(r0), "id", truncate(task.id.as_str(), 26), accent());
    let ghost r1 = r0.push(("id"@, truncate_spec(t.id@, 26), accent()));
    push_row(&mut lines, Ghost(r1), "state", String::from_str(task_state_label(&task.state)), state_color(&task.state));
    let ghost r2 = r1.push(("state"@, state_name(t.state), state_color_spec(t.state)));
    push_row(&mut lines, Ghost(r2), "runtime", String::from_str(runtime_label(task)), runtime_color(task));
    let ghost r3 = r2.push(("runtime"@, runtime_name(t.runtime), runtime_color_spec(t.runtime)));
    push_row(&mut lines, Ghost(r3), "mode", String::from_str(mode_label(&task.mode)), violet());
    let ghost r4 = r3.push(("mode"@, mode_name(t.mode), violet()));
    push_row(&mut lines, Ghost(r4), "repo", truncate(task.repo.as_str(), 28), good());
    let ghost r5 = r4.push(("repo"@, truncate_spec(t.repo@, 28), good()));
    push_row(&mut lines, Ghost(r5), "root", truncate(task.repo_root.as_str(), 40), overview_text());
    let ghost r6 = r5.push(("root"@, truncate_spec(t.repo_root@, 40), overview_text()));
    push_row(&mut lines, Ghost(r6), "reason", truncate(task.reason.as_str(), 36), warn());
    let ghost r7 = r6.push(("reason"@, truncate_spec(t.reason@, 36), warn()));
    push_row(&mut lines, Ghost(r7), "created", format_timestamp(task.created_at), muted());
    let ghost r8 = r7.push(("created"@, timestamp_text(t.created_at), muted()));
    push_row(&mut lines, Ghost(r8), "updated", format_timestamp(task.updated_at), muted());
    let ghost r9 = r8.push(("updated"@, timestamp_text(t.updated_at), muted()));
    let command = join_words(&task.command);
    push_row(&mut lines, Ghost(r9), "command", truncate(command.as_str(), 48), overview_text());
    let ghost r10 = r9.push(
        ("command"@, truncate_spec(join_seqs(crate::config::views(t.command@), " "@), 48), overview_text()),
    );
    assert(r10 =~= detail_base(t));
    lines
}

/// The detail panel of a task: its id, state, runtime, mode, repository,
/// reason, times and command, then session, branch, worktree, origin,
/// finish time and error where it has them.
pub fn task_detail_lines(task: &TaskRecord) -> (r: Vec<StyledLine>)
    ensures
        detail_lines_of(r@, detail_rows(*task)),
{
    let ghost t = *task;
    let mut lines = base_detail_lines(task);
    let ghost a = match t.session {
        Some(s) => detail_base(t).push(("session"@, truncate_spec(s@, 32), teal())),
        None => detail_base(t),
    };
    if let Some(s) = &task.session {
        push_row(&mut lines, Ghost(detail_base(t)), "session", truncate(s.as_str(), 32), teal());
    }
    let ghost b = match t.branch {
        Some(s) => a.push(("branch"@, truncate_spec(s@, 32), accent())),
        None => a,
    };
    if let Some(s) = &task.branch {
        push_row(&mut lines, Ghost(a), "branch", truncate(s.as_str(), 32), accent());
    }
    let ghost c = match t.worktree {
        Some(s) => b.push(("worktree"@, truncate_spec(s@, 40), overview_text())),
        None => b,
    };
    if let Some(s) = &task.worktree {
        push_row(&mut lines, Ghost(b), "worktree", truncate(s.as_str(), 40), overview_text());
    }
    let ghost d = match t.origin {
        Some(o) => c.push(
            ("origin"@, truncate_spec(o.session_name@ + " / "@ + o.pane_current_path@, 40), muted()),
        ),
        None => c,
    };
    if let Some(o) = &task.origin {
        let mut text = chars_of(o.session_name.as_str());
        append_str(&mut text, " / ");
        append_str(&mut text, o.pane_current_path.as_str());
        push_row(&mut lines, Ghost(c), "origin", truncate(from_chars(&text).as_str(), 40), muted());
    }
    let ghost e = match t.finished_at {
        Some(f) => d.push(("finished"@, timestamp_text(f), muted())),
        None => d,
    };
    if let Some(f) = task.finished_at {
        push_row(&mut lines, Ghost(d), "finished", format_timestamp(f), muted());
    }
    if let Some(er) = &task.last_error {
        push_row(&mut lines, Ghost(e), "error", truncate(er.as_str(), 48), bad());
    }
    lines
}

} // verus!
