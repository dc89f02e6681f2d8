//! Building blocks of the pane views: labels, table rows, sort keys,
//! totals, and reading what tmux and git print.
use crate::config::TaskRuntime;
use crate::model::{state_is_terminal, TaskRecord, TaskState};
use crate::order::{order_chars, order_int, order_text, SortKey};
use crate::panes::{PaneCounts, PaneGitSummary, PaneSnapshot};
use crate::text::{
    append_chars, append_str, chars_eq_str, chars_of, decimal, decimal_chars, from_chars,
    join_chars, join_seqs, lemma_split_on_nonempty, lines, parse_i64,
    parse_i64_spec, parse_usize, parse_usize_spec, repeat_char, slice_chars, split_char,
    split_lines, split_on, split_ws, starts_with, take_chars, tokens, trim, trim_chars, trim_str,
};
use vstd::prelude::*;

verus! {

pub const AGENT_WIDTH: usize = 12;

pub const RUNTIME_WIDTH: usize = 10;

pub const REPO_WIDTH: usize = 18;

pub const BRANCH_WIDTH: usize = 12;

pub const GIT_WIDTH: usize = 14;

/// One line of `tmux list-panes`.
#[derive(Debug, Clone)]
pub struct RawPane {
    pub session_name: String,
    pub window_id: String,
    pub window_index: i64,
    pub window_name: String,
    pub pane_id: String,
    pub pane_index: i64,
    pub pane_active: bool,
    pub window_bell_flag: bool,
    pub pane_current_path: String,
    pub pane_current_command: String,
    pub pane_title: String,
}

/// The repository around a pane's directory and its working-tree state.
#[derive(Debug, Clone)]
pub struct GitInfo {
    pub repo_root: String,
    pub repo: String,
    pub branch: Option<String>,
    pub summary: PaneGitSummary,
}

/// The repository around a pane's directory.
#[derive(Debug, Clone)]
pub struct GitContext {
    pub repo_root: String,
    pub repo: String,
    pub branch: Option<String>,
}

// ---------------------------------------------------------------------
// Cutting text to a width
// ---------------------------------------------------------------------

/// At most `max` characters of `t`: longer text keeps `max - 3` characters
/// and ends in `...`; with `max <= 3` it is just cut.
pub open spec fn shorten_spec(t: Seq<char>, max: nat) -> Seq<char> {
    if t.len() <= max {
        t
    } else if max <= 3 {
        t.take(max as int)
    } else {
        t.take(max - 3) + "..."@
    }
}

pub fn shorten(text: &str, max_chars: usize) -> (r: String)
    ensures
        r@ == shorten_spec(text@, max_chars as nat),
{
    let chars = chars_of(text);
    if chars.len() <= max_chars {
        return String::from_str(text);
    }
    if max_chars <= 3 {
        let t = take_chars(&chars, max_chars);
        return from_chars(&t);
    }
    let mut out = take_chars(&chars, max_chars - 3);
    append_str(&mut out, "...");
    from_chars(&out)
}

/// At most `width` characters of `t`, the last replaced by `…` where text
/// was cut (and no ellipsis when `width <= 1`).
pub open spec fn cut_to_width(t: Seq<char>, width: nat) -> Seq<char> {
    if t.len() <= width {
        t
    } else if width <= 1 {
        t.take(width as int)
    } else {
        t.take(width - 1).push('\u{2026}')
    }
}

pub fn truncate_to_width(text: &str, width: usize) -> (r: String)
    ensures
        r@ == cut_to_width(text@, width as nat),
{
    let chars = chars_of(text);
    if chars.len() <= width {
        return String::from_str(text);
    }
    if width <= 1 {
        let t = take_chars(&chars, width);
        return from_chars(&t);
    }
    let mut out = take_chars(&chars, width - 1);
    out.push('\u{2026}');
    from_chars(&out)
}

/// `t` cut to `width` and padded with spaces to exactly `width`.
pub open spec fn fixed_cell_spec(t: Seq<char>, width: nat) -> Seq<char> {
    let c = cut_to_width(t, width);
    c + Seq::new((width - c.len()) as nat, |_i: int| ' ')
}

pub fn fixed_cell(text: &str, width: usize) -> (r: String)
    ensures
        r@ == fixed_cell_spec(text@, width as nat),
{
    let cut = truncate_to_width(text, width);
    let mut out = chars_of(cut.as_str());
    let padding = if out.len() < width {
        width - out.len()
    } else {
        0
    };
    let pad = repeat_char(' ', padding);
    append_chars(&mut out, &pad);
    proof {
        assert(cut@.len() <= width);
    }
    from_chars(&out)
}

/// Every cell of the pane table is exactly as wide as its column.
pub proof fn lemma_fixed_cell_width(t: Seq<char>, width: nat)
    ensures
        fixed_cell_spec(t, width).len() == width,
{
}

// ---------------------------------------------------------------------
// Names
// ---------------------------------------------------------------------

pub open spec fn runtime_name(r: TaskRuntime) -> Seq<char> {
    match r {
        TaskRuntime::Headless => "headless"@,
        TaskRuntime::Mirrored => "mirrored"@,
        TaskRuntime::Tui => "tui"@,
    }
}

pub open spec fn state_name(s: TaskState) -> Seq<char> {
    match s {
        TaskState::Queued => "queued"@,
        TaskState::Dispatching => "dispatching"@,
        TaskState::Running => "running"@,
        TaskState::WaitingInput => "waiting_input"@,
        TaskState::Succeeded => "succeeded"@,
        TaskState::Failed => "failed"@,
        TaskState::Canceled => "canceled"@,
    }
}

pub fn runtime_label(task: &TaskRecord) -> (r: &'static str)
    ensures
        r@ == runtime_name(task.runtime),
{
    match task.runtime {
        TaskRuntime::Headless => "headless",
        TaskRuntime::Mirrored => "mirrored",
        TaskRuntime::Tui => "tui",
    }
}

pub fn task_state_label(state: &TaskState) -> (r: &'static str)
    ensures
        r@ == state_name(*state),
{
    match state {
        TaskState::Queued => "queued",
        TaskState::Dispatching => "dispatching",
        TaskState::Running => "running",
        TaskState::WaitingInput => "waiting_input",
        TaskState::Succeeded => "succeeded",
        TaskState::Failed => "failed",
        TaskState::Canceled => "canceled",
    }
}

/// The tmux option value for a flag.
pub fn bool_flag(value: bool) -> (r: &'static str)
    ensures
        value ==> r@ == "1"@,
        !value ==> r@ == "0"@,
{
    if value {
        "1"
    } else {
        "0"
    }
}

// ---------------------------------------------------------------------
// Labels
// ---------------------------------------------------------------------

/// `path` with the home directory written as `~`.
pub open spec fn short_path_spec(path: Seq<char>, home: Option<Seq<char>>) -> Seq<char> {
    match home {
        Some(h) => if h.is_prefix_of(path) {
            if path.len() == h.len() {
                "~"@
            } else {
                "~"@ + path.skip(h.len() as int)
            }
        } else {
            path
        },
        None => path,
    }
}

pub fn short_path_with_home(path: &str, home: Option<&str>) -> (r: Vec<char>)
    ensures
        r@ == short_path_spec(path@, match home {
            Some(h) => Some(h@),
            None => None,
        }),
{
    let p = chars_of(path);
    match home {
        Some(h) => {
            if starts_with(&p, h) {
                let hv = chars_of(h);
                let mut out: Vec<char> = Vec::new();
                append_str(&mut out, "~");
                if hv.len() < p.len() {
                    let rest = slice_chars(&p, hv.len(), p.len());
                    append_chars(&mut out, &rest);
                } else {
                    proof {
                        assert(out@ =~= "~"@);
                    }
                }
                proof {
                    assert(p@.skip(hv@.len() as int) =~= p@.subrange(hv@.len() as int, p@.len() as int));
                }
                out
            } else {
                p
            }
        },
        None => p,
    }
}

/// The first word of the task's command, or `task`.
pub open spec fn agent_of(t: TaskRecord) -> Seq<char> {
    if t.command@.len() > 0 {
        t.command@[0]@
    } else {
        "task"@
    }
}

/// The task part of a pane label: its title and `agent/runtime`, with
/// `/waiting_input` while the task waits for input.
pub open spec fn task_segments(t: TaskRecord) -> Seq<Seq<char>> {
    seq![
        shorten_spec(t.title@, 42),
        agent_of(t) + "/"@ + runtime_name(t.runtime) + (if t.state == TaskState::WaitingInput {
            "/waiting_input"@
        } else {
            Seq::empty()
        }),
    ]
}

pub open spec fn opt_seq(o: Option<String>) -> Option<Seq<char>> {
    match o {
        Some(s) => Some(s@),
        None => None,
    }
}

/// The parts of a pane label, in order.
pub open spec fn label_segments(
    command: Seq<char>,
    path: Seq<char>,
    task: Option<TaskRecord>,
    repo: Option<Seq<char>>,
    branch: Option<Seq<char>>,
    git: Option<Seq<char>>,
    home: Option<Seq<char>>,
) -> Seq<Seq<char>> {
    let a = match task {
        Some(t) => task_segments(t),
        None => if trim(command).len() > 0 {
            seq![shorten_spec(command, 32)]
        } else {
            Seq::empty()
        },
    };
    let b = match repo {
        Some(r) => a.push(
            match branch {
                Some(br) => r.push('@') + br,
                None => r,
            },
        ),
        None => a,
    };
    let c = match git {
        Some(g) => b.push(g),
        None => b,
    };
    c.push(short_path_spec(path, home))
}

/// A pane label: its parts joined by ` | `.
pub open spec fn label_spec(
    command: Seq<char>,
    path: Seq<char>,
    task: Option<TaskRecord>,
    repo: Option<Seq<char>>,
    branch: Option<Seq<char>>,
    git: Option<Seq<char>>,
    home: Option<Seq<char>>,
) -> Seq<char> {
    join_seqs(label_segments(command, path, task, repo, branch, git, home), " | "@)
}

pub open spec fn ref_seq(o: Option<&str>) -> Option<Seq<char>> {
    match o {
        Some(s) => Some(s@),
        None => None,
    }
}

pub open spec fn git_label_of(g: Option<&PaneGitSummary>) -> Option<Seq<char>> {
    match g {
        Some(x) => Some(x.label@),
        None => None,
    }
}

pub open spec fn deref_task(t: Option<&TaskRecord>) -> Option<TaskRecord> {
    match t {
        Some(x) => Some(*x),
        None => None,
    }
}

/// The label of a pane, with `home` as the home directory.
pub fn build_label_with_home(
    raw: &RawPane,
    task: Option<&TaskRecord>,
    repo: Option<&str>,
    branch: Option<&str>,
    git: Option<&PaneGitSummary>,
    home: Option<&str>,
) -> (r: String)
    ensures
        r@ == label_spec(
            raw.pane_current_command@,
            raw.pane_current_path@,
            deref_task(task),
            ref_seq(repo),
            ref_seq(branch),
            git_label_of(git),
            ref_seq(home),
        ),
{
    let mut segments: Vec<Vec<char>> = Vec::new();
    let ghost cmd = raw.pane_current_command@;
    match task {
        Some(t) => {
            let title = shorten(t.title.as_str(), 42);
            segments.push(chars_of(title.as_str()));
            let mut second: Vec<char> = if t.command.len() > 0 {
                chars_of(t.command[0].as_str())
            } else {
                chars_of("task")
            };
            append_str(&mut second, "/");
            append_str(&mut second, runtime_label(t));
            if t.state == TaskState::WaitingInput {
                append_str(&mut second, "/waiting_input");
            } else {
                proof {
                    assert(second@ + Seq::<char>::empty() =~= second@);
                }
            }
            segments.push(second);
            proof {
                assert(segments@.map_values(|v: Vec<char>| v@) =~= task_segments(*t));
            }
        },
        None => {
            let c = chars_of(raw.pane_current_command.as_str());
            let trimmed = trim_chars(&c);
            if trimmed.len() > 0 {
                let s = shorten(raw.pane_current_command.as_str(), 32);
                segments.push(chars_of(s.as_str()));
            }
        },
    }
    let ghost a = segments@.map_values(|v: Vec<char>| v@);
    match repo {
        Some(r) => {
            let mut seg = chars_of(r);
            match branch {
                Some(b) => {
                    seg.push('@');
                    append_str(&mut seg, b);
                },
                None => {},
            }
            segments.push(seg);
        },
        None => {},
    }
    let ghost b = segments@.map_values(|v: Vec<char>| v@);
    proof {
        match repo {
            Some(r) => {
                assert(b =~= a.push(
                    match ref_seq(branch) {
                        Some(br) => r@.push('@') + br,
                        None => r@,
                    },
                ));
            },
            None => {
                assert(b =~= a);
            },
        }
    }
    match git {
        Some(g) => {
            segments.push(chars_of(g.label.as_str()));
        },
        None => {},
    }
    let ghost c = segments@.map_values(|v: Vec<char>| v@);
    proof {
        match git {
            Some(g) => {
                assert(c =~= b.push(g.label@));
            },
            None => {
                assert(c =~= b);
            },
        }
    }
    let sp = short_path_with_home(raw.pane_current_path.as_str(), home);
    segments.push(sp);
    proof {
        assert(segments@.map_values(|v: Vec<char>| v@) =~= label_segments(
            raw.pane_current_command@,
            raw.pane_current_path@,
            deref_task(task),
            ref_seq(repo),
            ref_seq(branch),
            git_label_of(git),
            ref_seq(home),
        ));
    }
    let joined = join_chars(&segments, " | ");
    from_chars(&joined)
}

/// The label of a pane. The home directory, written as `~`, is the one
/// that `dirs::home_dir` reports, so the contract holds for some home.
pub fn build_label(
    raw: &RawPane,
    task: Option<&TaskRecord>,
    repo: Option<&str>,
    branch: Option<&str>,
    git: Option<&PaneGitSummary>,
) -> (r: String)
    ensures
        exists|home: Option<Seq<char>>|
            r@ == label_spec(
                raw.pane_current_command@,
                raw.pane_current_path@,
                deref_task(task),
                ref_seq(repo),
                ref_seq(branch),
                git_label_of(git),
                home,
            ),
{
    let home = crate::config::home_dir_text();
    match &home {
        Some(h) => build_label_with_home(raw, task, repo, branch, git, Some(h.as_str())),
        None => build_label_with_home(raw, task, repo, branch, git, None),
    }
}

// ---------------------------------------------------------------------
// Table rows
// ---------------------------------------------------------------------

/// The column separator of pane rows.
pub open spec fn row_sep() -> Seq<char> {
    seq![' ', '\u{2502}', ' ']
}

/// The agent of a pane: the first word of its task's command, else the
/// pane's running command.
pub open spec fn row_agent(p: PaneSnapshot) -> Seq<char> {
    match p.task {
        Some(t) => if t.command@.len() > 0 {
            t.command@[0]@
        } else {
            p.pane_current_command@
        },
        None => p.pane_current_command@,
    }
}

pub open spec fn opt_or_empty(o: Option<String>) -> Seq<char> {
    match o {
        Some(s) => s@,
        None => Seq::empty(),
    }
}

pub open spec fn row_git(p: PaneSnapshot) -> Seq<char> {
    match p.git {
        Some(g) => g.label@,
        None => Seq::empty(),
    }
}

pub open spec fn row_runtime(p: PaneSnapshot) -> Seq<char> {
    match p.task {
        Some(t) => runtime_name(t.runtime),
        None => Seq::empty(),
    }
}

/// The row that tmux shows for a pane in the swarmux tree: agent, repo,
/// branch, git state and runtime in fixed-width columns.
pub open spec fn pane_row_spec(p: PaneSnapshot) -> Seq<char> {
    fixed_cell_spec(row_agent(p), 12) + row_sep() + fixed_cell_spec(opt_or_empty(p.repo), 18)
        + row_sep() + fixed_cell_spec(opt_or_empty(p.branch), 12) + row_sep() + fixed_cell_spec(
        row_git(p),
        14,
    ) + row_sep() + fixed_cell_spec(row_runtime(p), 10)
}

fn push_row_sep(v: &mut Vec<char>)
    ensures
        final(v)@ == old(v)@ + row_sep(),
{
    v.push(' ');
    v.push('\u{2502}');
    v.push(' ');
    proof {
        assert(v@ =~= old(v)@ + row_sep());
    }
}

pub fn pane_row(pane: &PaneSnapshot) -> (r: String)
    ensures
        r@ == pane_row_spec(*pane),
{
    let agent: &str = match &pane.task {
        Some(t) => if t.command.len() > 0 {
            t.command[0].as_str()
        } else {
            pane.pane_current_command.as_str()
        },
        None => pane.pane_current_command.as_str(),
    };
    let branch: &str = match &pane.branch {
        Some(b) => b.as_str(),
        None => "",
    };
    let git: &str = match &pane.git {
        Some(g) => g.label.as_str(),
        None => "",
    };
    let repo: &str = match &pane.repo {
        Some(r) => r.as_str(),
        None => "",
    };
    let runtime: &str = match &pane.task {
        Some(t) => runtime_label(t),
        None => "",
    };
    proof {
        reveal_strlit("");
    }
    let mut out = chars_of(fixed_cell(agent, AGENT_WIDTH).as_str());
    push_row_sep(&mut out);
    append_str(&mut out, fixed_cell(repo, REPO_WIDTH).as_str());
    push_row_sep(&mut out);
    append_str(&mut out, fixed_cell(branch, BRANCH_WIDTH).as_str());
    push_row_sep(&mut out);
    append_str(&mut out, fixed_cell(git, GIT_WIDTH).as_str());
    push_row_sep(&mut out);
    append_str(&mut out, fixed_cell(runtime, RUNTIME_WIDTH).as_str());
    from_chars(&out)
}

// ---------------------------------------------------------------------
// git state
// ---------------------------------------------------------------------

/// `clean`, or the nonzero counts as `chgN delN newN +I/-D`, or `dirty`.
pub open spec fn git_label_spec(
    dirty: bool,
    changed: nat,
    deleted: nat,
    untracked: nat,
    insertions: nat,
    deletions: nat,
) -> Seq<char> {
    if !dirty {
        "clean"@
    } else {
        let p0: Seq<Seq<char>> = Seq::empty();
        let p1 = if changed > 0 {
            p0.push("chg"@ + decimal(changed))
        } else {
            p0
        };
        let p2 = if deleted > 0 {
            p1.push("del"@ + decimal(deleted))
        } else {
            p1
        };
        let p3 = if untracked > 0 {
            p2.push("new"@ + decimal(untracked))
        } else {
            p2
        };
        let p4 = if insertions > 0 || deletions > 0 {
            p3.push("+"@ + decimal(insertions) + "/-"@ + decimal(deletions))
        } else {
            p3
        };
        if p4.len() == 0 {
            "dirty"@
        } else {
            join_seqs(p4, " "@)
        }
    }
}

fn labelled_count(prefix: &str, n: usize) -> (r: Vec<char>)
    ensures
        r@ == prefix@ + decimal(n as nat),
{
    let mut v = chars_of(prefix);
    let d = decimal_chars(n as u64);
    append_chars(&mut v, &d);
    v
}

pub fn git_summary_label(
    dirty: bool,
    changed_files: usize,
    deleted_files: usize,
    untracked_files: usize,
    insertions: usize,
    deletions: usize,
) -> (r: String)
    ensures
        r@ == git_label_spec(
            dirty,
            changed_files as nat,
            deleted_files as nat,
            untracked_files as nat,
            insertions as nat,
            deletions as nat,
        ),
{
    if !dirty {
        return String::from_str("clean");
    }
    let ghost p0: Seq<Seq<char>> = Seq::empty();
    let ghost p1 = if changed_files > 0 {
        p0.push("chg"@ + decimal(changed_files as nat))
    } else {
        p0
    };
    let ghost p2 = if deleted_files > 0 {
        p1.push("del"@ + decimal(deleted_files as nat))
    } else {
        p1
    };
    let ghost p3 = if untracked_files > 0 {
        p2.push("new"@ + decimal(untracked_files as nat))
    } else {
        p2
    };
    let ghost p4 = if insertions > 0 || deletions > 0 {
        p3.push("+"@ + decimal(insertions as nat) + "/-"@ + decimal(deletions as nat))
    } else {
        p3
    };
    let mut parts: Vec<Vec<char>> = Vec::new();
    proof {
        assert(parts@.map_values(|v: Vec<char>| v@) =~= p0);
    }
    if changed_files > 0 {
        parts.push(labelled_count("chg", changed_files));
    }
    proof {
        assert(parts@.map_values(|v: Vec<char>| v@) =~= p1);
    }
    if deleted_files > 0 {
        parts.push(labelled_count("del", deleted_files));
    }
    proof {
        assert(parts@.map_values(|v: Vec<char>| v@) =~= p2);
    }
    if untracked_files > 0 {
        parts.push(labelled_count("new", untracked_files));
    }
    proof {
        assert(parts@.map_values(|v: Vec<char>| v@) =~= p3);
    }
    if insertions > 0 || deletions > 0 {
        let mut v = labelled_count("+", insertions);
        let d = labelled_count("/-", deletions);
        append_chars(&mut v, &d);
        proof {
            assert(v@ =~= "+"@ + decimal(insertions as nat) + "/-"@ + decimal(deletions as nat));
        }
        parts.push(v);
    }
    proof {
        assert(parts@.map_values(|v: Vec<char>| v@) =~= p4);
    }
    if parts.len() == 0 {
        String::from_str("dirty")
    } else {
        let joined = join_chars(&parts, " ");
        from_chars(&joined)
    }
}

/// A porcelain status code that marks a changed path.
pub open spec fn is_change_code(c: char) -> bool {
    c == 'A' || c == 'M' || c == 'R' || c == 'C' || c == 'T' || c == 'U'
}

/// The first two characters of a status line.
pub open spec fn status_head(l: Seq<char>) -> Seq<char> {
    if l.len() < 2 {
        l
    } else {
        l.take(2)
    }
}

/// How a `git status --porcelain=v1` line counts: 2 untracked, 1 deleted,
/// 0 changed, 3 not at all.
pub open spec fn status_kind(l: Seq<char>) -> int {
    if "??"@.is_prefix_of(l) {
        2
    } else if status_head(l).contains('D') {
        1
    } else if exists|i: int| 0 <= i < status_head(l).len() && is_change_code(status_head(l)[i]) {
        0
    } else {
        3
    }
}

/// Changed, deleted and untracked paths over status lines.
pub open spec fn status_tally(ls: Seq<Seq<char>>) -> (nat, nat, nat)
    decreases ls.len(),
{
    if ls.len() == 0 {
        (0, 0, 0)
    } else {
        let t = status_tally(ls.drop_last());
        let k = status_kind(ls.last());
        if k == 2 {
            (t.0, t.1, t.2 + 1)
        } else if k == 1 {
            (t.0, t.1 + 1, t.2)
        } else if k == 0 {
            (t.0 + 1, t.1, t.2)
        } else {
            t
        }
    }
}

proof fn lemma_status_tally_bound(ls: Seq<Seq<char>>)
    ensures
        status_tally(ls).0 + status_tally(ls).1 + status_tally(ls).2 <= ls.len(),
    decreases ls.len(),
{
    if ls.len() > 0 {
        lemma_status_tally_bound(ls.drop_last());
    }
}

fn status_line_kind(l: &Vec<char>) -> (k: u8)
    ensures
        k as int == status_kind(l@),
{
    if starts_with(l, "??") {
        return 2;
    }
    let h = take_chars(l, 2);
    proof {
        assert(h@ == status_head(l@));
    }
    let mut has_d = false;
    let mut has_change = false;
    let mut i: usize = 0;
    while i < h.len()
        invariant
            i <= h.len(),
            has_d == exists|j: int| 0 <= j < i && h@[j] == 'D',
            has_change == exists|j: int| 0 <= j < i && is_change_code(h@[j]),
        decreases h.len() - i,
    {
        let c = h[i];
        if c == 'D' {
            has_d = true;
        }
        if c == 'A' || c == 'M' || c == 'R' || c == 'C' || c == 'T' || c == 'U' {
            has_change = true;
        }
        i += 1;
    }
    proof {
        if has_d {
            let j = choose|j: int| 0 <= j < i && h@[j] == 'D';
            assert(h@.contains(h@[j]));
        }
        if h@.contains('D') {
            let j = choose|j: int| 0 <= j < h@.len() && h@[j] == 'D';
            assert(0 <= j < i && h@[j] == 'D');
        }
    }
    if has_d {
        1
    } else if has_change {
        0
    } else {
        3
    }
}

/// The tokens on one numstat line: inserted and removed line counts, where
/// `-` (a binary file) and text that is not a number count as nothing.
pub open spec fn numstat_value(t: Seq<char>) -> nat {
    if t == "-"@ {
        0
    } else {
        match parse_usize_spec(t) {
            Some(v) => v as nat,
            None => 0,
        }
    }
}

pub open spec fn numstat_line(l: Seq<char>) -> (nat, nat) {
    let t = tokens(l);
    if t.len() < 2 {
        (0, 0)
    } else {
        (numstat_value(t[0]), numstat_value(t[1]))
    }
}

/// Inserted and removed lines over `git diff --numstat` output lines.
pub open spec fn numstat_total(ls: Seq<Seq<char>>) -> (nat, nat)
    decreases ls.len(),
{
    if ls.len() == 0 {
        (0, 0)
    } else {
        let t = numstat_total(ls.drop_last());
        let l = numstat_line(ls.last());
        (t.0 + l.0, t.1 + l.1)
    }
}

fn numstat_token_value(t: &Vec<char>) -> (r: usize)
    ensures
        r as nat == numstat_value(t@),
{
    if chars_eq_str(t, "-") {
        0
    } else {
        match parse_usize(t) {
            Some(v) => v,
            None => 0,
        }
    }
}

/// Totals of `git diff --numstat` output; `None` where a total does not
/// fit in `usize`.
pub fn parse_numstat(text: &str) -> (r: Option<(usize, usize)>)
    ensures
        ({
            let tot = numstat_total(lines(text@));
            match r {
                Some((i, d)) => i as nat == tot.0 && d as nat == tot.1,
                None => tot.0 > usize::MAX || tot.1 > usize::MAX,
            }
        }),
{
    let chars = chars_of(text);
    let ls = split_lines(&chars);
    let ghost lv = lines(text@);
    let mut insertions: usize = 0;
    let mut deletions: usize = 0;
    let mut i: usize = 0;
    while i < ls.len()
        invariant
            lv == lines(text@),
            ls@.len() == lv.len(),
            forall|k: int| 0 <= k < ls@.len() ==> #[trigger] ls@[k]@ == lv[k],
            i <= ls.len(),
            insertions as nat == numstat_total(lv.take(i as int)).0,
            deletions as nat == numstat_total(lv.take(i as int)).1,
        decreases ls.len() - i,
    {
        proof {
            assert(lv.take(i + 1).drop_last() =~= lv.take(i as int));
            assert(lv.take(i + 1).last() == lv[i as int]);
            lemma_numstat_total_prefix(lv, i + 1);
        }
        let toks = split_ws(&ls[i]);
        if toks.len() >= 2 {
            let a = numstat_token_value(&toks[0]);
            let b = numstat_token_value(&toks[1]);
            match insertions.checked_add(a) {
                Some(x) => {
                    insertions = x;
                },
                None => {
                    proof {
                        lemma_numstat_total_prefix(lv, i + 1);
                    }
                    return None;
                },
            }
            match deletions.checked_add(b) {
                Some(x) => {
                    deletions = x;
                },
                None => {
                    proof {
                        lemma_numstat_total_prefix(lv, i + 1);
                    }
                    return None;
                },
            }
        }
        i += 1;
    }
    proof {
        assert(lv.take(ls@.len() as int) =~= lv);
    }
    Some((insertions, deletions))
}

/// Totals only grow as lines are added.
proof fn lemma_numstat_total_prefix(ls: Seq<Seq<char>>, i: int)
    requires
        0 <= i <= ls.len(),
    ensures
        numstat_total(ls.take(i)).0 <= numstat_total(ls).0,
        numstat_total(ls.take(i)).1 <= numstat_total(ls).1,
    decreases ls.len() - i,
{
    if i < ls.len() {
        lemma_numstat_total_prefix(ls, i + 1);
        assert(ls.take(i + 1).drop_last() =~= ls.take(i));
    } else {
        assert(ls.take(i) =~= ls);
    }
}

/// The git summary that status and diff output give.
pub open spec fn git_summary_spec(status: Seq<char>, unstaged: Seq<char>, staged: Seq<char>) -> (
    bool,
    nat,
    nat,
    nat,
    nat,
    nat,
) {
    let st = status_tally(lines(status));
    let tr = numstat_total(lines(unstaged));
    let sg = numstat_total(lines(staged));
    let ins = tr.0 + sg.0;
    let del = tr.1 + sg.1;
    let dirty = st.0 > 0 || st.1 > 0 || st.2 > 0 || ins > 0 || del > 0;
    (dirty, st.0, st.1, st.2, ins, del)
}

/// The working-tree summary from `git status --porcelain=v1` output and
/// the two `git diff --numstat` outputs (unstaged and staged). `None` where
/// a line total does not fit in `usize`.
pub fn parse_git_summary(status: &str, tracked_diff: &str, staged_diff: &str) -> (r: Option<
    PaneGitSummary,
>)
    ensures
        ({
            let g = git_summary_spec(status@, tracked_diff@, staged_diff@);
            match r {
                Some(s) => {
                    &&& s.dirty == g.0
                    &&& s.changed_files as nat == g.1
                    &&& s.deleted_files as nat == g.2
                    &&& s.untracked_files as nat == g.3
                    &&& s.insertions as nat == g.4
                    &&& s.deletions as nat == g.5
                    &&& s.label@ == git_label_spec(g.0, g.1, g.2, g.3, g.4, g.5)
                },
                None => g.4 > usize::MAX || g.5 > usize::MAX,
            }
        }),
{
    let chars = chars_of(status);
    let ls = split_lines(&chars);
    let ghost lv = lines(status@);
    let mut changed: usize = 0;
    let mut deleted: usize = 0;
    let mut untracked: usize = 0;
    let mut i: usize = 0;
    while i < ls.len()
        invariant
            lv == lines(status@),
            ls@.len() == lv.len(),
            forall|k: int| 0 <= k < ls@.len() ==> #[trigger] ls@[k]@ == lv[k],
            i <= ls.len(),
            changed as nat == status_tally(lv.take(i as int)).0,
            deleted as nat == status_tally(lv.take(i as int)).1,
            untracked as nat == status_tally(lv.take(i as int)).2,
        decreases ls.len() - i,
    {
        proof {
            assert(lv.take(i + 1).drop_last() =~= lv.take(i as int));
            assert(lv.take(i + 1).last() == lv[i as int]);
            lemma_status_tally_bound(lv.take(i as int));
        }
        let k = status_line_kind(&ls[i]);
        if k == 2 {
            untracked += 1;
        } else if k == 1 {
            deleted += 1;
        } else if k == 0 {
            changed += 1;
        }
        i += 1;
    }
    proof {
        assert(lv.take(ls@.len() as int) =~= lv);
    }
    let unstaged = parse_numstat(tracked_diff);
    let staged = parse_numstat(staged_diff);
    match (unstaged, staged) {
        (Some((ti, td)), Some((si, sd))) => {
            match (ti.checked_add(si), td.checked_add(sd)) {
                (Some(insertions), Some(deletions)) => {
                    let dirty = changed > 0 || deleted > 0 || untracked > 0 || insertions > 0
                        || deletions > 0;
                    let label = git_summary_label(
                        dirty,
                        changed,
                        deleted,
                        untracked,
                        insertions,
                        deletions,
                    );
                    Some(
                        PaneGitSummary {
                            dirty,
                            changed_files: changed,
                            deleted_files: deleted,
                            untracked_files: untracked,
                            insertions,
                            deletions,
                            label,
                        },
                    )
                },
                _ => None,
            }
        },
        _ => None,
    }
}

/// The first piece of a join starts it.
pub proof fn lemma_join_prefix(segs: Seq<Seq<char>>, sep: Seq<char>)
    requires
        segs.len() > 0,
    ensures
        segs[0].is_prefix_of(join_seqs(segs, sep)),
    decreases segs.len(),
{
    if segs.len() > 1 {
        lemma_join_prefix(segs.drop_last(), sep);
        let j = join_seqs(segs.drop_last(), sep);
        assert forall|k: int| 0 <= k < segs[0].len() implies segs[0][k] == join_seqs(segs, sep)[k] by {
            assert(segs.drop_last()[0] == segs[0]);
            assert((j + sep + segs.last())[k] == j[k]);
        }
    }
}

/// The label is `clean` exactly when the summary is not dirty.
pub proof fn lemma_git_label_clean_iff_not_dirty(
    dirty: bool,
    changed: nat,
    deleted: nat,
    untracked: nat,
    insertions: nat,
    deletions: nat,
)
    ensures
        (git_label_spec(dirty, changed, deleted, untracked, insertions, deletions) == "clean"@)
            == !dirty,
{
    reveal_strlit("clean");
    reveal_strlit("dirty");
    reveal_strlit("chg");
    reveal_strlit("del");
    reveal_strlit("new");
    reveal_strlit("+");
    if dirty {
        let l = git_label_spec(dirty, changed, deleted, untracked, insertions, deletions);
        let p0: Seq<Seq<char>> = Seq::empty();
        let p1 = if changed > 0 {
            p0.push("chg"@ + decimal(changed))
        } else {
            p0
        };
        let p2 = if deleted > 0 {
            p1.push("del"@ + decimal(deleted))
        } else {
            p1
        };
        let p3 = if untracked > 0 {
            p2.push("new"@ + decimal(untracked))
        } else {
            p2
        };
        let p4 = if insertions > 0 || deletions > 0 {
            p3.push("+"@ + decimal(insertions) + "/-"@ + decimal(deletions))
        } else {
            p3
        };
        if p4.len() == 0 {
            assert(l[0] == 'd');
            assert("clean"@[0] == 'c');
        } else {
            lemma_join_prefix(p4, " "@);
            assert(l == join_seqs(p4, " "@));
            let f = p4[0];
            if changed > 0 {
                assert(f == "chg"@ + decimal(changed));
                assert(f[1] == 'h');
                assert(l[1] == f[1]);
            } else if deleted > 0 {
                assert(f == "del"@ + decimal(deleted));
                assert(f[0] == 'd');
                assert(l[0] == f[0]);
            } else if untracked > 0 {
                assert(f == "new"@ + decimal(untracked));
                assert(f[0] == 'n');
                assert(l[0] == f[0]);
            } else {
                assert(f == "+"@ + decimal(insertions) + "/-"@ + decimal(deletions));
                assert(f[0] == '+');
                assert(l[0] == f[0]);
            }
            assert("clean"@[0] == 'c');
            assert("clean"@[1] == 'l');
        }
    }
}

// ---------------------------------------------------------------------
// Repository names
// ---------------------------------------------------------------------

/// The parts of a path split at `/` that are names: empty parts and `.`
/// are not (as `Path::components` skips them).
pub open spec fn path_parts(ps: Seq<Seq<char>>) -> Seq<Seq<char>>
    decreases ps.len(),
{
    if ps.len() == 0 {
        Seq::empty()
    } else {
        let k = path_parts(ps.drop_last());
        let l = ps.last();
        if l.len() == 0 || l == "."@ {
            k
        } else {
            k.push(l)
        }
    }
}

/// `Path::file_name` of a Unix path: its last name, unless there is none
/// or it is `..`.
pub open spec fn file_name_spec(p: Seq<char>) -> Option<Seq<char>> {
    let c = path_parts(split_on(p, '/'));
    if c.len() == 0 || c.last() == ".."@ {
        None
    } else {
        Some(c.last())
    }
}

/// The name of a repository: the last name of its root path, or `repo`.
pub open spec fn repo_name_spec(root: Seq<char>) -> Seq<char> {
    match file_name_spec(root) {
        Some(n) => n,
        None => "repo"@,
    }
}

pub fn repo_name(repo_root: &str) -> (r: String)
    ensures
        r@ == repo_name_spec(repo_root@),
{
    let p = chars_of(repo_root);
    let pieces = split_char(&p, '/');
    let ghost ps = split_on(p@, '/');
    let mut last: Option<usize> = None;
    let mut i: usize = 0;
    while i < pieces.len()
        invariant
            ps == split_on(p@, '/'),
            pieces@.len() == ps.len(),
            forall|k: int| 0 <= k < pieces@.len() ==> #[trigger] pieces@[k]@ == ps[k],
            i <= pieces.len(),
            match last {
                Some(j) => j < i && path_parts(ps.take(i as int)).len() > 0 && path_parts(
                    ps.take(i as int),
                ).last() == ps[j as int],
                None => path_parts(ps.take(i as int)).len() == 0,
            },
        decreases pieces.len() - i,
    {
        proof {
            assert(ps.take(i + 1).drop_last() =~= ps.take(i as int));
            assert(ps.take(i + 1).last() == ps[i as int]);
        }
        let piece = &pieces[i];
        if piece.len() > 0 && !chars_eq_str(piece, ".") {
            last = Some(i);
        }
        i += 1;
    }
    proof {
        assert(ps.take(pieces@.len() as int) =~= ps);
    }
    match last {
        Some(j) => {
            if chars_eq_str(&pieces[j], "..") {
                String::from_str("repo")
            } else {
                from_chars(&pieces[j])
            }
        },
        None => String::from_str("repo"),
    }
}

/// The repository context from the output of `git rev-parse
/// --show-toplevel` and `git branch --show-current` (each trimmed, `None`
/// where git failed); `None` outside a repository.
pub fn git_context_from(toplevel: Option<String>, branch: Option<String>) -> (r: Option<
    GitContext,
>)
    ensures
        toplevel is None ==> r is None,
        toplevel matches Some(root) ==> (r matches Some(c) && c.repo_root == root && c.repo@
            == repo_name_spec(root@) && c.branch == match branch {
            Some(b) => if trim(b@).len() > 0 {
                Some(b)
            } else {
                None::<String>
            },
            None => None,
        }),
{
    match toplevel {
        None => None,
        Some(root) => {
            let branch = match branch {
                Some(b) => {
                    let t = trim_str(b.as_str());
                    if t.len() > 0 {
                        Some(b)
                    } else {
                        None
                    }
                },
                None => None,
            };
            let repo = repo_name(root.as_str());
            Some(GitContext { repo_root: root, repo, branch })
        },
    }
}

// ---------------------------------------------------------------------
// tmux pane lists
// ---------------------------------------------------------------------

/// The tmux format that `list-panes` prints for each pane: eleven
/// tab-separated fields.
pub fn pane_list_format() -> (r: &'static str)
    ensures
        r@ == "#{session_name}\t#{window_id}\t#{window_index}\t#{window_name}\t#{pane_id}\t#{pane_index}\t#{pane_active}\t#{window_bell_flag}\t#{pane_current_path}\t#{pane_current_command}\t#{pane_title}"@,
{
    "#{session_name}\t#{window_id}\t#{window_index}\t#{window_name}\t#{pane_id}\t#{pane_index}\t#{pane_active}\t#{window_bell_flag}\t#{pane_current_path}\t#{pane_current_command}\t#{pane_title}"
}

/// `1`/`true` and `0`/`false`, as tmux prints flags.
pub open spec fn parse_bool_spec(raw: Seq<char>) -> Option<bool> {
    if raw == "1"@ || raw == "true"@ {
        Some(true)
    } else if raw == "0"@ || raw == "false"@ {
        Some(false)
    } else {
        None
    }
}

pub fn parse_bool(raw: &Vec<char>) -> (r: Option<bool>)
    ensures
        r == parse_bool_spec(raw@),
{
    if chars_eq_str(raw, "1") || chars_eq_str(raw, "true") {
        Some(true)
    } else if chars_eq_str(raw, "0") || chars_eq_str(raw, "false") {
        Some(false)
    } else {
        None
    }
}

/// Why a pane line could not be read.
#[derive(Debug, Clone)]
pub enum TmuxParseError {
    /// The line ends before the named field.
    MissingField(String),
    /// The field holds this text where a number belongs.
    InvalidInteger(String),
    /// The field holds this text where a flag belongs.
    InvalidBool(String),
}

/// The field names of a pane line, in order.
pub open spec fn field_name(k: int) -> Seq<char> {
    if k == 0 {
        "session_name"@
    } else if k == 1 {
        "window_id"@
    } else if k == 2 {
        "window_index"@
    } else if k == 3 {
        "window_name"@
    } else if k == 4 {
        "pane_id"@
    } else if k == 5 {
        "pane_index"@
    } else if k == 6 {
        "pane_active"@
    } else if k == 7 {
        "window_bell_flag"@
    } else if k == 8 {
        "pane_current_path"@
    } else if k == 9 {
        "pane_current_command"@
    } else {
        "pane_title"@
    }
}

fn field_name_of(k: usize) -> (r: &'static str)
    ensures
        r@ == field_name(k as int),
{
    if k == 0 {
        "session_name"
    } else if k == 1 {
        "window_id"
    } else if k == 2 {
        "window_index"
    } else if k == 3 {
        "window_name"
    } else if k == 4 {
        "pane_id"
    } else if k == 5 {
        "pane_index"
    } else if k == 6 {
        "pane_active"
    } else if k == 7 {
        "window_bell_flag"
    } else if k == 8 {
        "pane_current_path"
    } else if k == 9 {
        "pane_current_command"
    } else {
        "pane_title"
    }
}

/// The first problem with the fields of a pane line, read in order:
/// `(0, k)` field `k` is missing, `(1, k)` field `k` is no number, `(2, k)`
/// field `k` is no flag.
pub open spec fn line_fault(f: Seq<Seq<char>>) -> Option<(int, int)> {
    if f.len() < 3 {
        Some((0, f.len() as int))
    } else if parse_i64_spec(f[2]) is None {
        Some((1, 2))
    } else if f.len() < 6 {
        Some((0, f.len() as int))
    } else if parse_i64_spec(f[5]) is None {
        Some((1, 5))
    } else if f.len() < 7 {
        Some((0, 6))
    } else if parse_bool_spec(f[6]) is None {
        Some((2, 6))
    } else if f.len() < 8 {
        Some((0, 7))
    } else if parse_bool_spec(f[7]) is None {
        Some((2, 7))
    } else if f.len() < 11 {
        Some((0, f.len() as int))
    } else {
        None
    }
}

/// `e` is the error for the fault `fault` in the fields `f`.
pub open spec fn error_for(e: TmuxParseError, fault: (int, int), f: Seq<Seq<char>>) -> bool {
    match e {
        TmuxParseError::MissingField(name) => fault.0 == 0 && name@ == field_name(fault.1),
        TmuxParseError::InvalidInteger(text) => fault.0 == 1 && text@ == f[fault.1],
        TmuxParseError::InvalidBool(text) => fault.0 == 2 && text@ == f[fault.1],
    }
}

/// `r` holds the fields `f` of a line without fault.
pub open spec fn raw_pane_from(r: RawPane, f: Seq<Seq<char>>) -> bool {
    &&& r.session_name@ == f[0]
    &&& r.window_id@ == f[1]
    &&& Some(r.window_index) == parse_i64_spec(f[2])
    &&& r.window_name@ == f[3]
    &&& r.pane_id@ == f[4]
    &&& Some(r.pane_index) == parse_i64_spec(f[5])
    &&& Some(r.pane_active) == parse_bool_spec(f[6])
    &&& Some(r.window_bell_flag) == parse_bool_spec(f[7])
    &&& r.pane_current_path@ == f[8]
    &&& r.pane_current_command@ == f[9]
    &&& r.pane_title@ == f[10]
}

/// Reads one line of `list-panes` output.
pub fn parse_pane_line(line: &Vec<char>) -> (r: Result<RawPane, TmuxParseError>)
    ensures
        ({
            let f = split_on(line@, '\t');
            match r {
                Ok(p) => line_fault(f) is None && raw_pane_from(p, f),
                Err(e) => line_fault(f) matches Some(fault) && error_for(e, fault, f),
            }
        }),
{
    let fields = split_char(line, '\t');
    let ghost f = split_on(line@, '\t');
    let n = fields.len();
    proof {
        lemma_split_on_nonempty(line@, '\t');
    }
    if n < 3 {
        return Err(TmuxParseError::MissingField(String::from_str(field_name_of(n))));
    }
    let window_index = match parse_i64(&fields[2]) {
        Some(v) => v,
        None => {
            return Err(TmuxParseError::InvalidInteger(from_chars(&fields[2])));
        },
    };
    if n < 6 {
        return Err(TmuxParseError::MissingField(String::from_str(field_name_of(n))));
    }
    let pane_index = match parse_i64(&fields[5]) {
        Some(v) => v,
        None => {
            return Err(TmuxParseError::InvalidInteger(from_chars(&fields[5])));
        },
    };
    if n < 7 {
        return Err(TmuxParseError::MissingField(String::from_str(field_name_of(6))));
    }
    let pane_active = match parse_bool(&fields[6]) {
        Some(v) => v,
        None => {
            return Err(TmuxParseError::InvalidBool(from_chars(&fields[6])));
        },
    };
    if n < 8 {
        return Err(TmuxParseError::MissingField(String::from_str(field_name_of(7))));
    }
    let window_bell_flag = match parse_bool(&fields[7]) {
        Some(v) => v,
        None => {
            return Err(TmuxParseError::InvalidBool(from_chars(&fields[7])));
        },
    };
    if n < 11 {
        return Err(TmuxParseError::MissingField(String::from_str(field_name_of(n))));
    }
    Ok(
        RawPane {
            session_name: from_chars(&fields[0]),
            window_id: from_chars(&fields[1]),
            window_index,
            window_name: from_chars(&fields[3]),
            pane_id: from_chars(&fields[4]),
            pane_index,
            pane_active,
            window_bell_flag,
            pane_current_path: from_chars(&fields[8]),
            pane_current_command: from_chars(&fields[9]),
            pane_title: from_chars(&fields[10]),
        },
    )
}

/// The lines that are not blank.
pub open spec fn nonblank_lines(ls: Seq<Seq<char>>) -> Seq<Seq<char>>
    decreases ls.len(),
{
    if ls.len() == 0 {
        Seq::empty()
    } else {
        let k = nonblank_lines(ls.drop_last());
        if trim(ls.last()).len() > 0 {
            k.push(ls.last())
        } else {
            k
        }
    }
}

/// The index of the first line with a fault, if any.
pub open spec fn first_faulty(ls: Seq<Seq<char>>) -> Option<int>
    decreases ls.len(),
{
    if ls.len() == 0 {
        None
    } else {
        match first_faulty(ls.drop_last()) {
            Some(i) => Some(i),
            None => if line_fault(split_on(ls.last(), '\t')) is Some {
                Some(ls.len() - 1)
            } else {
                None
            },
        }
    }
}

/// Reads the output of `tmux list-panes` in the format
/// [`pane_list_format`]: one pane for each line that is not blank, or the
/// error of the first line that cannot be read.
pub fn parse_pane_list(raw: &str) -> (r: Result<Vec<RawPane>, TmuxParseError>)
    ensures
        ({
            let ls = nonblank_lines(lines(raw@));
            match r {
                Ok(panes) => first_faulty(ls) is None && panes@.len() == ls.len() && forall|k: int|
                    0 <= k < ls.len() ==> raw_pane_from(#[trigger] panes@[k], split_on(ls[k], '\t')),
                Err(e) => first_faulty(ls) matches Some(i) && line_fault(split_on(ls[i], '\t'))
                    matches Some(fault) && error_for(e, fault, split_on(ls[i], '\t')),
            }
        }),
{
    let chars = chars_of(raw);
    let all = split_lines(&chars);
    let ghost lv = lines(raw@);
    let mut panes: Vec<RawPane> = Vec::new();
    let ghost mut kept: Seq<Seq<char>> = Seq::empty();
    let mut i: usize = 0;
    while i < all.len()
        invariant
            lv == lines(raw@),
            all@.len() == lv.len(),
            forall|k: int| 0 <= k < all@.len() ==> #[trigger] all@[k]@ == lv[k],
            i <= all.len(),
            kept == nonblank_lines(lv.take(i as int)),
            first_faulty(kept) is None,
            panes@.len() == kept.len(),
            forall|k: int|
                0 <= k < kept.len() ==> raw_pane_from(#[trigger] panes@[k], split_on(kept[k], '\t')),
        decreases all.len() - i,
    {
        proof {
            assert(lv.take(i + 1).drop_last() =~= lv.take(i as int));
            assert(lv.take(i + 1).last() == lv[i as int]);
        }
        let line = &all[i];
        let t = trim_chars(line);
        if t.len() > 0 {
            match parse_pane_line(line) {
                Ok(p) => {
                    panes.push(p);
                    proof {
                        let old_kept = kept;
                        kept = kept.push(line@);
                        assert(kept.drop_last() =~= old_kept);
                    }
                },
                Err(e) => {
                    proof {
                        let old_kept = kept;
                        kept = kept.push(line@);
                        assert(kept.drop_last() =~= old_kept);
                        lemma_first_faulty_extends(lv, i as int + 1);
                    }
                    return Err(e);
                },
            }
        }
        i += 1;
    }
    proof {
        assert(lv.take(all@.len() as int) =~= lv);
    }
    Ok(panes)
}

/// A fault among the first lines is the first fault of all lines.
proof fn lemma_first_faulty_extends(ls: Seq<Seq<char>>, i: int)
    requires
        0 <= i <= ls.len(),
        first_faulty(nonblank_lines(ls.take(i))) is Some,
    ensures
        first_faulty(nonblank_lines(ls)) == first_faulty(nonblank_lines(ls.take(i))),
        nonblank_lines(ls.take(i)).is_prefix_of(nonblank_lines(ls)),
    decreases ls.len() - i,
{
    if i < ls.len() {
        assert(ls.take(i + 1).drop_last() =~= ls.take(i));
        lemma_first_faulty_prefix(nonblank_lines(ls.take(i)), ls[i]);
        lemma_first_faulty_extends(ls, i + 1);
    } else {
        assert(ls.take(i) =~= ls);
    }
}

proof fn lemma_first_faulty_prefix(k: Seq<Seq<char>>, l: Seq<char>)
    requires
        first_faulty(k) is Some,
    ensures
        first_faulty(k.push(l)) == first_faulty(k),
{
    assert(k.push(l).drop_last() =~= k);
}

// ---------------------------------------------------------------------
// Sorting and totals
// ---------------------------------------------------------------------

/// The key by which the pane list is sorted: the current pane first, then
/// by task state (waiting for input, running, queued, finished, none),
/// managed panes first, then by session, window, pane index and id.
#[derive(Debug, Clone)]
pub struct PaneSortKey {
    pub current: u8,
    pub state_rank: u8,
    pub managed: u8,
    pub session_name: String,
    pub window_index: i64,
    pub pane_index: i64,
    pub pane_id: String,
}

/// The lexicographic order of two keys: -1, 0 or 1.
pub open spec fn key_order(a: PaneSortKey, b: PaneSortKey) -> int {
    if a.current != b.current {
        order_int(a.current as int, b.current as int)
    } else if a.state_rank != b.state_rank {
        order_int(a.state_rank as int, b.state_rank as int)
    } else if a.managed != b.managed {
        order_int(a.managed as int, b.managed as int)
    } else if order_chars(a.session_name@, b.session_name@) != 0 {
        order_chars(a.session_name@, b.session_name@)
    } else if a.window_index != b.window_index {
        order_int(a.window_index as int, b.window_index as int)
    } else if a.pane_index != b.pane_index {
        order_int(a.pane_index as int, b.pane_index as int)
    } else {
        order_chars(a.pane_id@, b.pane_id@)
    }
}

proof fn lemma_key_order_antisym(a: PaneSortKey, b: PaneSortKey)
    ensures
        key_order(a, b) == -key_order(b, a),
{
    crate::order::lemma_order_chars_antisym(a.session_name@, b.session_name@);
    crate::order::lemma_order_chars_antisym(a.pane_id@, b.pane_id@);
}

impl SortKey for PaneSortKey {
    open spec fn key_le(self, other: Self) -> bool {
        key_order(self, other) <= 0
    }

    proof fn lemma_key_le_total(a: Self, b: Self) {
        lemma_key_order_antisym(a, b);
    }

    proof fn lemma_key_le_trans(a: Self, b: Self, c: Self) {
        crate::order::lemma_order_chars_zero(a.session_name@, b.session_name@);
        crate::order::lemma_order_chars_zero(b.session_name@, c.session_name@);
        crate::order::lemma_order_chars_zero(a.session_name@, c.session_name@);
        crate::order::lemma_order_chars_zero(a.pane_id@, b.pane_id@);
        crate::order::lemma_order_chars_zero(b.pane_id@, c.pane_id@);
        crate::order::lemma_order_chars_zero(a.pane_id@, c.pane_id@);
        crate::order::lemma_order_chars_range(a.session_name@, b.session_name@);
        crate::order::lemma_order_chars_range(b.session_name@, c.session_name@);
        crate::order::lemma_order_chars_range(a.session_name@, c.session_name@);
        if order_chars(a.session_name@, b.session_name@) <= 0 && order_chars(
            b.session_name@,
            c.session_name@,
        ) <= 0 {
            crate::order::lemma_order_chars_trans(a.session_name@, b.session_name@, c.session_name@);
        }
        if order_chars(a.pane_id@, b.pane_id@) <= 0 && order_chars(b.pane_id@, c.pane_id@) <= 0 {
            crate::order::lemma_order_chars_trans(a.pane_id@, b.pane_id@, c.pane_id@);
        }
    }

    fn le(&self, other: &Self) -> (r: bool) {
        if self.current != other.current {
            return self.current < other.current;
        }
        if self.state_rank != other.state_rank {
            return self.state_rank < other.state_rank;
        }
        if self.managed != other.managed {
            return self.managed < other.managed;
        }
        let sa = chars_of(self.session_name.as_str());
        let sb = chars_of(other.session_name.as_str());
        let so = order_text(&sa, &sb);
        if so != 0 {
            return so < 0;
        }
        if self.window_index != other.window_index {
            return self.window_index < other.window_index;
        }
        if self.pane_index != other.pane_index {
            return self.pane_index < other.pane_index;
        }
        let pa = chars_of(self.pane_id.as_str());
        let pb = chars_of(other.pane_id.as_str());
        order_text(&pa, &pb) <= 0
    }
}

/// Where a task state puts a pane in the list.
pub open spec fn state_rank_spec(t: Option<TaskRecord>) -> u8 {
    match t {
        Some(task) => match task.state {
            TaskState::WaitingInput => 0,
            TaskState::Running | TaskState::Dispatching => 1,
            TaskState::Queued => 2,
            _ => 3,
        },
        None => 4,
    }
}

pub open spec fn sort_key_of(p: PaneSnapshot) -> PaneSortKey {
    PaneSortKey {
        current: if p.current {
            0
        } else {
            1
        },
        state_rank: state_rank_spec(p.task),
        managed: if p.managed_by_swarmux {
            0
        } else {
            1
        },
        session_name: p.session_name,
        window_index: p.window_index,
        pane_index: p.pane_index,
        pane_id: p.pane_id,
    }
}

pub fn pane_sort_key(pane: &PaneSnapshot) -> (r: PaneSortKey)
    ensures
        r == sort_key_of(*pane),
{
    let state_rank: u8 = match &pane.task {
        Some(task) => match task.state {
            TaskState::WaitingInput => 0,
            TaskState::Running | TaskState::Dispatching => 1,
            TaskState::Queued => 2,
            TaskState::Succeeded | TaskState::Failed | TaskState::Canceled => 3,
        },
        None => 4,
    };
    PaneSortKey {
        current: if pane.current {
            0
        } else {
            1
        },
        state_rank,
        managed: if pane.managed_by_swarmux {
            0
        } else {
            1
        },
        session_name: pane.session_name.clone(),
        window_index: pane.window_index,
        pane_index: pane.pane_index,
        pane_id: pane.pane_id.clone(),
    }
}

/// The number of items in `s` that satisfy `p`.
pub open spec fn count_where<T>(s: Seq<T>, p: spec_fn(T) -> bool) -> nat
    decreases s.len(),
{
    if s.len() == 0 {
        0
    } else {
        count_where(s.drop_last(), p) + if p(s.last()) {
            1nat
        } else {
            0nat
        }
    }
}

pub proof fn lemma_count_where_bound<T>(s: Seq<T>, p: spec_fn(T) -> bool)
    ensures
        count_where(s, p) <= s.len(),
    decreases s.len(),
{
    if s.len() > 0 {
        lemma_count_where_bound(s.drop_last(), p);
    }
}

/// The number of different values in `s`.
pub open spec fn distinct_count(s: Seq<Seq<char>>) -> nat
    decreases s.len(),
{
    if s.len() == 0 {
        0
    } else {
        distinct_count(s.drop_last()) + if s.drop_last().contains(s.last()) {
            0nat
        } else {
            1nat
        }
    }
}

proof fn lemma_distinct_count_bound(s: Seq<Seq<char>>)
    ensures
        distinct_count(s) <= s.len(),
    decreases s.len(),
{
    if s.len() > 0 {
        lemma_distinct_count_bound(s.drop_last());
    }
}

pub open spec fn session_names(panes: Seq<PaneSnapshot>) -> Seq<Seq<char>> {
    panes.map_values(|p: PaneSnapshot| p.session_name@)
}

pub open spec fn is_dirty(p: PaneSnapshot) -> bool {
    p.git matches Some(g) && g.dirty
}

pub open spec fn is_waiting(p: PaneSnapshot) -> bool {
    p.task matches Some(t) && t.state == TaskState::WaitingInput
}

/// No total of a pane list exceeds the number of panes, and a list with a
/// pane has a session.
pub proof fn lemma_pane_totals_bounded(panes: Seq<PaneSnapshot>)
    ensures
        distinct_count(session_names(panes)) <= panes.len(),
        panes.len() > 0 ==> distinct_count(session_names(panes)) >= 1,
        count_where(panes, |p: PaneSnapshot| p.managed_by_swarmux) <= panes.len(),
        count_where(panes, |p: PaneSnapshot| is_dirty(p)) <= panes.len(),
        count_where(panes, |p: PaneSnapshot| is_waiting(p)) <= panes.len(),
        count_where(panes, |p: PaneSnapshot| p.current) <= panes.len(),
    decreases panes.len(),
{
    lemma_distinct_count_bound(session_names(panes));
    lemma_count_where_bound(panes, |p: PaneSnapshot| p.managed_by_swarmux);
    lemma_count_where_bound(panes, |p: PaneSnapshot| is_dirty(p));
    lemma_count_where_bound(panes, |p: PaneSnapshot| is_waiting(p));
    lemma_count_where_bound(panes, |p: PaneSnapshot| p.current);
    if panes.len() > 0 {
        lemma_pane_totals_bounded(panes.drop_last());
        assert(session_names(panes).drop_last() =~= session_names(panes.drop_last()));
        if panes.len() == 1 {
            assert(session_names(panes).drop_last().len() == 0);
        }
    }
}

proof fn lemma_count_where_remove<T>(s: Seq<T>, p: spec_fn(T) -> bool, i: int)
    requires
        0 <= i < s.len(),
    ensures
        count_where(s, p) == count_where(s.remove(i), p) + if p(s[i]) {
            1nat
        } else {
            0nat
        },
    decreases s.len(),
{
    if i == s.len() - 1 {
        assert(s.remove(i) =~= s.drop_last());
    } else {
        lemma_count_where_remove(s.drop_last(), p, i);
        assert(s.remove(i).drop_last() =~= s.drop_last().remove(i));
        assert(s.remove(i).last() == s.last());
    }
}

/// A count does not depend on the order of the items counted.
pub proof fn lemma_count_where_order_free<T>(a: Seq<T>, b: Seq<T>, p: spec_fn(T) -> bool)
    requires
        a.to_multiset() == b.to_multiset(),
    ensures
        count_where(a, p) == count_where(b, p),
    decreases a.len(),
{
    broadcast use vstd::seq_lib::group_to_multiset_ensures, vstd::multiset::group_multiset_axioms;

    if a.len() == 0 {
        assert(b.to_multiset().len() == 0);
        assert(b.len() == 0);
    } else {
        let x = a.last();
        assert(a =~= a.drop_last().push(x));
        assert(a.to_multiset().count(x) > 0);
        assert(b.contains(x));
        let i = choose|i: int| 0 <= i < b.len() && b[i] == x;
        assert(b.remove(i).to_multiset() =~= a.drop_last().to_multiset());
        lemma_count_where_order_free(a.drop_last(), b.remove(i), p);
        lemma_count_where_remove(b, p, i);
    }
}

/// The number of different values is the size of the set of them.
proof fn lemma_distinct_count_set(s: Seq<Seq<char>>)
    ensures
        distinct_count(s) == s.to_set().len(),
    decreases s.len(),
{
    broadcast use vstd::set::group_set_axioms;

    if s.len() == 0 {
        assert(s.to_set() =~= Set::<Seq<char>>::empty());
    } else {
        lemma_distinct_count_set(s.drop_last());
        assert(s =~= s.drop_last().push(s.last()));
        s.drop_last().lemma_push_to_set_commute(s.last());
        vstd::seq_lib::seq_to_set_is_finite(s.drop_last());
        if s.drop_last().contains(s.last()) {
            assert(s.drop_last().to_set().contains(s.last()));
            assert(s.drop_last().to_set().insert(s.last()) =~= s.drop_last().to_set());
        } else {
            assert(!s.drop_last().to_set().contains(s.last()));
        }
    }
}

/// The totals of a pane list do not depend on the order of the panes.
pub proof fn lemma_pane_totals_order_free(a: Seq<PaneSnapshot>, b: Seq<PaneSnapshot>)
    requires
        a.to_multiset() == b.to_multiset(),
    ensures
        a.len() == b.len(),
        distinct_count(session_names(a)) == distinct_count(session_names(b)),
        count_where(a, |p: PaneSnapshot| p.managed_by_swarmux) == count_where(
            b,
            |p: PaneSnapshot| p.managed_by_swarmux,
        ),
        count_where(a, |p: PaneSnapshot| is_dirty(p)) == count_where(b, |p: PaneSnapshot| is_dirty(p)),
        count_where(a, |p: PaneSnapshot| is_waiting(p)) == count_where(
            b,
            |p: PaneSnapshot| is_waiting(p),
        ),
        count_where(a, |p: PaneSnapshot| p.current) == count_where(b, |p: PaneSnapshot| p.current),
{
    broadcast use vstd::seq_lib::group_to_multiset_ensures;

    assert(a.len() == a.to_multiset().len());
    assert(b.len() == b.to_multiset().len());
    lemma_count_where_order_free(a, b, |p: PaneSnapshot| p.managed_by_swarmux);
    lemma_count_where_order_free(a, b, |p: PaneSnapshot| is_dirty(p));
    lemma_count_where_order_free(a, b, |p: PaneSnapshot| is_waiting(p));
    lemma_count_where_order_free(a, b, |p: PaneSnapshot| p.current);
    lemma_distinct_count_set(session_names(a));
    lemma_distinct_count_set(session_names(b));
    assert forall|n: Seq<char>| session_names(a).to_set().contains(n) == session_names(
        b,
    ).to_set().contains(n) by {
        if session_names(a).contains(n) {
            let k = choose|k: int| 0 <= k < session_names(a).len() && session_names(a)[k] == n;
            assert(a.contains(a[k]));
            assert(a.to_multiset().count(a[k]) > 0);
            assert(b.contains(a[k]));
            let j = choose|j: int| 0 <= j < b.len() && b[j] == a[k];
            assert(session_names(b)[j] == n);
        }
        if session_names(b).contains(n) {
            let k = choose|k: int| 0 <= k < session_names(b).len() && session_names(b)[k] == n;
            assert(b.contains(b[k]));
            assert(b.to_multiset().count(b[k]) > 0);
            assert(a.contains(b[k]));
            let j = choose|j: int| 0 <= j < a.len() && a[j] == b[k];
            assert(session_names(a)[j] == n);
        }
    }
    assert(session_names(a).to_set() =~= session_names(b).to_set());
}

/// The totals of a pane list: panes, distinct sessions, managed panes,
/// panes with a dirty working tree, tasks waiting for input, current panes.
pub fn pane_counts(panes: &Vec<PaneSnapshot>) -> (r: PaneCounts)
    ensures
        r.panes == panes@.len(),
        r.sessions == distinct_count(session_names(panes@)),
        r.managed_panes == count_where(panes@, |p: PaneSnapshot| p.managed_by_swarmux),
        r.dirty_panes == count_where(panes@, |p: PaneSnapshot| is_dirty(p)),
        r.waiting_input == count_where(panes@, |p: PaneSnapshot| is_waiting(p)),
        r.current == count_where(panes@, |p: PaneSnapshot| p.current),
{
    let ghost names = session_names(panes@);
    let mut sessions: usize = 0;
    let mut managed: usize = 0;
    let mut dirty: usize = 0;
    let mut waiting: usize = 0;
    let mut current: usize = 0;
    let mut i: usize = 0;
    while i < panes.len()
        invariant
            names == session_names(panes@),
            i <= panes.len(),
            sessions == distinct_count(names.take(i as int)),
            managed == count_where(panes@.take(i as int), |p: PaneSnapshot| p.managed_by_swarmux),
            dirty == count_where(panes@.take(i as int), |p: PaneSnapshot| is_dirty(p)),
            waiting == count_where(panes@.take(i as int), |p: PaneSnapshot| is_waiting(p)),
            current == count_where(panes@.take(i as int), |p: PaneSnapshot| p.current),
        decreases panes.len() - i,
    {
        proof {
            assert(panes@.take(i + 1).drop_last() =~= panes@.take(i as int));
            assert(names.take(i + 1).drop_last() =~= names.take(i as int));
            assert(names.take(i + 1).last() == panes@[i as int].session_name@);
            lemma_distinct_count_bound(names.take(i as int));
            lemma_count_where_bound(panes@.take(i as int), |p: PaneSnapshot| p.managed_by_swarmux);
            lemma_count_where_bound(panes@.take(i as int), |p: PaneSnapshot| is_dirty(p));
            lemma_count_where_bound(panes@.take(i as int), |p: PaneSnapshot| is_waiting(p));
            lemma_count_where_bound(panes@.take(i as int), |p: PaneSnapshot| p.current);
        }
        let pane = &panes[i];
        let mut seen = false;
        let mut j: usize = 0;
        while j < i
            invariant
                names == session_names(panes@),
                i < panes.len(),
                j <= i,
                seen == exists|k: int| 0 <= k < j && names[k] == names[i as int],
            decreases i - j,
        {
            proof {
                assert(names[j as int] == panes@[j as int].session_name@);
                assert(names[i as int] == panes@[i as int].session_name@);
            }
            if panes[j].session_name == panes[i].session_name {
                seen = true;
            }
            j += 1;
        }
        proof {
            if seen {
                let k = choose|k: int| 0 <= k < i && names[k] == names[i as int];
                assert(names.take(i as int)[k] == names[i as int]);
            }
            if names.take(i as int).contains(names[i as int]) {
                let k = choose|k: int| 0 <= k < i && names.take(i as int)[k] == names[i as int];
                assert(names[k] == names[i as int]);
            }
        }
        if !seen {
            sessions += 1;
        }
        if pane.managed_by_swarmux {
            managed += 1;
        }
        match &pane.git {
            Some(g) => {
                if g.dirty {
                    dirty += 1;
                }
            },
            None => {},
        }
        match &pane.task {
            Some(t) => {
                if t.state == TaskState::WaitingInput {
                    waiting += 1;
                }
            },
            None => {},
        }
        if pane.current {
            current += 1;
        }
        i += 1;
    }
    proof {
        assert(panes@.take(panes@.len() as int) =~= panes@);
        assert(names.take(panes@.len() as int) =~= names);
    }
    PaneCounts {
        panes: panes.len(),
        sessions,
        managed_panes: managed,
        dirty_panes: dirty,
        waiting_input: waiting,
        current,
    }
}

/// The session name that `tmux display-message -p '#{session_name}'`
/// printed, or `None` when it printed nothing but whitespace.
pub fn session_name_from_output(output: &str) -> (r: Option<String>)
    ensures
        trim(output@).len() == 0 ==> r is None,
        trim(output@).len() > 0 ==> (r matches Some(s) && s@ == trim(output@)),
{
    let t = trim_str(output);
    if t.len() == 0 {
        None
    } else {
        Some(from_chars(&t))
    }
}

/// The git information of a pane from its repository context and the
/// output of `git status --porcelain=v1 --untracked-files=all`, `git diff
/// --numstat` and `git diff --cached --numstat` (empty where git failed);
/// `None` where a line total does not fit in `usize`.
pub fn git_info_from(context: GitContext, status: &str, unstaged_diff: &str, staged_diff: &str) -> (r:
    Option<GitInfo>)
    ensures
        ({
            let g = git_summary_spec(status@, unstaged_diff@, staged_diff@);
            match r {
                Some(info) => {
                    &&& info.repo_root == context.repo_root
                    &&& info.repo == context.repo
                    &&& info.branch == context.branch
                    &&& info.summary.dirty == g.0
                    &&& info.summary.changed_files as nat == g.1
                    &&& info.summary.deleted_files as nat == g.2
                    &&& info.summary.untracked_files as nat == g.3
                    &&& info.summary.insertions as nat == g.4
                    &&& info.summary.deletions as nat == g.5
                    &&& info.summary.label@ == git_label_spec(g.0, g.1, g.2, g.3, g.4, g.5)
                },
                None => g.4 > usize::MAX || g.5 > usize::MAX,
            }
        }),
{
    match parse_git_summary(status, unstaged_diff, staged_diff) {
        Some(summary) => Some(
            GitInfo {
                repo_root: context.repo_root,
                repo: context.repo,
                branch: context.branch,
                summary,
            },
        ),
        None => None,
    }
}

// ---------------------------------------------------------------------
// Laws of the pane list
// ---------------------------------------------------------------------

proof fn lemma_split_without_newline(s: Seq<char>)
    requires
        !s.contains('\n'),
    ensures
        split_on(s, '\n') == seq![s],
    decreases s.len(),
{
    if s.len() > 0 {
        assert(!s.drop_last().contains('\n')) by {
            if s.drop_last().contains('\n') {
                let i = choose|i: int| 0 <= i < s.drop_last().len() && s.drop_last()[i] == '\n';
                assert(s[i] == '\n');
            }
        }
        lemma_split_without_newline(s.drop_last());
        assert(s.last() != '\n') by {
            assert(s[s.len() - 1] == s.last());
        }
        let p = split_on(s.drop_last(), '\n');
        assert(p.len() == 1 && p.last() == s.drop_last());
        assert(s.drop_last().push(s.last()) =~= s);
        assert(p.update(p.len() - 1, p.last().push(s.last())) =~= seq![s]);
    } else {
        assert(s =~= Seq::<char>::empty());
    }
}

/// A status line that starts with `??` is an untracked path: a working
/// tree whose status is that one line, with no diff, has one untracked
/// path, no changed or deleted path, and is dirty.
pub proof fn lemma_untracked_status_line(l: Seq<char>)
    requires
        "??"@.is_prefix_of(l),
        !l.contains('\n'),
    ensures
        git_summary_spec(l, Seq::empty(), Seq::empty()) == (true, 0nat, 0nat, 1nat, 0nat, 0nat),
{
    reveal_strlit("??");
    assert(l.len() >= 2);
    lemma_split_without_newline(l);
    assert(lines(l) =~= seq![l]);
    assert(split_on(Seq::<char>::empty(), '\n') == seq![Seq::<char>::empty()]);
    assert(lines(Seq::<char>::empty()) =~= Seq::<Seq<char>>::empty());
    assert(seq![l].drop_last() =~= Seq::<Seq<char>>::empty());
    assert(status_kind(l) == 2);
    assert(status_tally(Seq::<Seq<char>>::empty()) == (0nat, 0nat, 0nat));
    assert(seq![l].last() == l);
    assert(status_tally(seq![l]) == (0nat, 0nat, 1nat));
    assert(numstat_total(lines(Seq::<char>::empty())) == (0nat, 0nat));
}

/// Each status line that starts with `??` adds one untracked path and
/// nothing else to the counts of the lines before it.
pub proof fn lemma_untracked_line_counts(ls: Seq<Seq<char>>, l: Seq<char>)
    requires
        "??"@.is_prefix_of(l),
    ensures
        status_tally(ls.push(l)) == (status_tally(ls).0, status_tally(ls).1, status_tally(ls).2 + 1),
{
    assert(ls.push(l).drop_last() =~= ls);
}

/// How one more status line changes the counts: a line that starts with
/// `??` adds an untracked path; any other line with `D` in its first two
/// characters adds a deleted path; any other line with `A`, `M`, `R`, `C`,
/// `T` or `U` there adds a changed path; and any other line adds nothing.
pub proof fn lemma_status_line_counts(ls: Seq<Seq<char>>, l: Seq<char>)
    ensures
        ({
            let before = status_tally(ls);
            let after = status_tally(ls.push(l));
            let untracked = "??"@.is_prefix_of(l);
            let deleted = !untracked && exists|i: int| 0 <= i < 2 && i < l.len() && l[i] == 'D';
            let changed = !untracked && !deleted && exists|i: int|
                0 <= i < 2 && i < l.len() && is_change_code(#[trigger] l[i]);
            &&& after.2 == before.2 + if untracked { 1nat } else { 0nat }
            &&& after.1 == before.1 + if deleted { 1nat } else { 0nat }
            &&& after.0 == before.0 + if changed { 1nat } else { 0nat }
        }),
{
    assert(ls.push(l).drop_last() =~= ls);
    assert(ls.push(l).last() == l);
    let h = status_head(l);
    assert(h.len() == if l.len() < 2 { l.len() } else { 2 });
    assert(forall|i: int| 0 <= i < h.len() ==> h[i] == l[i]);
    if exists|i: int| 0 <= i < 2 && i < l.len() && l[i] == 'D' {
        let i = choose|i: int| 0 <= i < 2 && i < l.len() && l[i] == 'D';
        assert(h[i] == 'D');
        assert(h.contains('D'));
    }
    if h.contains('D') {
        let i = choose|i: int| 0 <= i < h.len() && h[i] == 'D';
        assert(l[i] == 'D');
    }
    if exists|i: int| 0 <= i < 2 && i < l.len() && is_change_code(#[trigger] l[i]) {
        let i = choose|i: int| 0 <= i < 2 && i < l.len() && is_change_code(#[trigger] l[i]);
        assert(is_change_code(h[i]));
    }
    if exists|i: int| 0 <= i < h.len() && is_change_code(h[i]) {
        let i = choose|i: int| 0 <= i < h.len() && is_change_code(h[i]);
        assert(is_change_code(l[i]));
    }
}

/// Of two panes that are both current or both not, one whose task waits
/// for input sorts before one whose task runs or is being dispatched; a
/// running or dispatching task before a queued one; a queued task before
/// a finished one; and a finished task before a pane with no task. Only a
/// pane whose task waits for input has the first place.
pub proof fn lemma_task_states_sort_in_order(a: PaneSnapshot, b: PaneSnapshot)
    requires
        a.current == b.current,
    ensures
        (a.task matches Some(t) && t.state == TaskState::WaitingInput) && (b.task matches Some(u) && (
        u.state == TaskState::Running || u.state == TaskState::Dispatching)) ==> key_order(
            sort_key_of(a),
            sort_key_of(b),
        ) < 0,
        (a.task matches Some(t) && (t.state == TaskState::Running || t.state == TaskState::Dispatching))
            && (b.task matches Some(u) && u.state == TaskState::Queued) ==> key_order(
            sort_key_of(a),
            sort_key_of(b),
        ) < 0,
        (a.task matches Some(t) && t.state == TaskState::Queued) && (b.task matches Some(u)
            && state_is_terminal(u.state)) ==> key_order(sort_key_of(a), sort_key_of(b)) < 0,
        (a.task is Some) && (b.task is None) ==> key_order(sort_key_of(a), sort_key_of(b)) < 0,
        (sort_key_of(a).state_rank == 0) == (a.task matches Some(t) && t.state
            == TaskState::WaitingInput),
{
}

/// In a sorted pane list, a pane whose task waits for input comes before
/// every pane whose task runs or is being dispatched, unless one of the two
/// is the current pane.
pub proof fn lemma_sorted_waiting_before_running(r: Seq<PaneSnapshot>, idx: Seq<usize>, j: int, k: int)
    requires
        crate::panes::sorted_stably(r, idx),
        0 <= j < r.len(),
        0 <= k < r.len(),
        !r[j].current,
        !r[k].current,
        r[j].task matches Some(t) && t.state == TaskState::WaitingInput,
        r[k].task matches Some(u) && (u.state == TaskState::Running || u.state
            == TaskState::Dispatching),
    ensures
        j < k,
{
    lemma_task_states_sort_in_order(r[j], r[k]);
    lemma_key_order_antisym(sort_key_of(r[j]), sort_key_of(r[k]));
    if k < j {
        assert(PaneSortKey::key_le(sort_key_of(r[k]), sort_key_of(r[j])));
    }
    assert(j != k);
}

proof fn lemma_join_step_prefix(segs: Seq<Seq<char>>, sep: Seq<char>, k: int)
    requires
        0 < k < segs.len(),
    ensures
        (join_seqs(segs.take(k), sep) + sep).is_prefix_of(join_seqs(segs, sep)),
    decreases segs.len(),
{
    if k == segs.len() - 1 {
        assert(segs.take(k) =~= segs.drop_last());
        let j = join_seqs(segs.drop_last(), sep);
        assert forall|i: int| 0 <= i < (j + sep).len() implies (j + sep)[i] == join_seqs(segs, sep)[i] by {
            assert((j + sep + segs.last())[i] == (j + sep)[i]);
        }
    } else {
        lemma_join_step_prefix(segs.drop_last(), sep, k);
        assert(segs.drop_last().take(k) =~= segs.take(k));
        let j = join_seqs(segs.drop_last(), sep);
        let p = join_seqs(segs.take(k), sep) + sep;
        assert forall|i: int| 0 <= i < p.len() implies p[i] == join_seqs(segs, sep)[i] by {
            assert(p[i] == j[i]);
            assert((j + sep + segs.last())[i] == j[i]);
        }
    }
}

/// A pane's label starts with its task's title and `agent/runtime`; that
/// part ends in `/waiting_input` exactly while the task waits for input
/// (otherwise the next part of the label follows it at once).
pub proof fn lemma_label_marks_waiting(
    command: Seq<char>,
    path: Seq<char>,
    t: TaskRecord,
    repo: Option<Seq<char>>,
    branch: Option<Seq<char>>,
    git: Option<Seq<char>>,
    home: Option<Seq<char>>,
)
    ensures
        t.state == TaskState::WaitingInput ==> (shorten_spec(t.title@, 42) + " | "@ + agent_of(t) + "/"@
            + runtime_name(t.runtime) + "/waiting_input"@ + " | "@).is_prefix_of(
            label_spec(command, path, Some(t), repo, branch, git, home),
        ),
        t.state != TaskState::WaitingInput ==> (shorten_spec(t.title@, 42) + " | "@ + agent_of(t) + "/"@
            + runtime_name(t.runtime) + " | "@).is_prefix_of(
            label_spec(command, path, Some(t), repo, branch, git, home),
        ),
{
    let segs = label_segments(command, path, Some(t), repo, branch, git, home);
    let ts = task_segments(t);
    assert(segs.len() >= 3);
    assert(segs.take(2) =~= ts);
    lemma_join_step_prefix(segs, " | "@, 2);
    assert(ts.len() == 2);
    assert(ts.drop_last() =~= seq![ts[0]]);
    assert(join_seqs(ts.drop_last(), " | "@) == ts[0]);
    assert(ts.last() == ts[1]);
    assert(join_seqs(ts, " | "@) == ts[0] + " | "@ + ts[1]);
    if t.state == TaskState::WaitingInput {
        assert(shorten_spec(t.title@, 42) + " | "@ + agent_of(t) + "/"@ + runtime_name(t.runtime)
            + "/waiting_input"@ + " | "@ =~= join_seqs(ts, " | "@) + " | "@);
    } else {
        assert(ts[1] =~= agent_of(t) + "/"@ + runtime_name(t.runtime));
        assert(shorten_spec(t.title@, 42) + " | "@ + agent_of(t) + "/"@ + runtime_name(t.runtime)
            + " | "@ =~= join_seqs(ts, " | "@) + " | "@);
    }
}

/// The dirty count counts a pane exactly when its git summary is present
/// and dirty: adding a pane adds one for such a pane and nothing for a
/// clean pane or one outside a repository; so a list of clean panes has
/// none.
pub proof fn lemma_dirty_count(panes: Seq<PaneSnapshot>, q: PaneSnapshot)
    ensures
        count_where(panes.push(q), |p: PaneSnapshot| is_dirty(p)) == count_where(
            panes,
            |p: PaneSnapshot| is_dirty(p),
        ) + if q.git matches Some(g) && g.dirty {
            1nat
        } else {
            0nat
        },
        (forall|k: int| 0 <= k < panes.len() ==> !(#[trigger] panes[k].git matches Some(g) && g.dirty))
            ==> count_where(panes, |p: PaneSnapshot| is_dirty(p)) == 0,
    decreases panes.len(),
{
    assert(panes.push(q).drop_last() =~= panes);
    if panes.len() > 0 {
        lemma_dirty_count(panes.drop_last(), panes.last());
        if forall|k: int| 0 <= k < panes.len() ==> !(#[trigger] panes[k].git matches Some(g) && g.dirty) {
            assert forall|k: int| 0 <= k < panes.drop_last().len() implies !(
            #[trigger] panes.drop_last()[k].git matches Some(g) && g.dirty) by {
                assert(panes.drop_last()[k] == panes[k]);
            }
            assert(panes.drop_last().push(panes.last()) =~= panes);
            assert(panes[panes.len() - 1] == panes.last());
        }
    }
}

/// The columns of a pane row: the agent in the first twelve characters,
/// the repository in characters 15 to 33, the branch in 36 to 48, the git
/// summary in 51 to 65 and the runtime in 68 to 78, each cut or padded to
/// its width, with ` │ ` between them.
pub proof fn lemma_pane_row_columns(p: PaneSnapshot)
    ensures
        pane_row_spec(p).len() == 78,
        pane_row_spec(p).subrange(0, 12) == fixed_cell_spec(row_agent(p), 12),
        pane_row_spec(p).subrange(12, 15) == row_sep(),
        pane_row_spec(p).subrange(15, 33) == fixed_cell_spec(opt_or_empty(p.repo), 18),
        pane_row_spec(p).subrange(33, 36) == row_sep(),
        pane_row_spec(p).subrange(36, 48) == fixed_cell_spec(opt_or_empty(p.branch), 12),
        pane_row_spec(p).subrange(48, 51) == row_sep(),
        pane_row_spec(p).subrange(51, 65) == fixed_cell_spec(row_git(p), 14),
        pane_row_spec(p).subrange(65, 68) == row_sep(),
        pane_row_spec(p).subrange(68, 78) == fixed_cell_spec(row_runtime(p), 10),
{
    let a = fixed_cell_spec(row_agent(p), 12);
    let b = fixed_cell_spec(opt_or_empty(p.repo), 18);
    let c = fixed_cell_spec(opt_or_empty(p.branch), 12);
    let d = fixed_cell_spec(row_git(p), 14);
    let e = fixed_cell_spec(row_runtime(p), 10);
    lemma_fixed_cell_width(row_agent(p), 12);
    lemma_fixed_cell_width(opt_or_empty(p.repo), 18);
    lemma_fixed_cell_width(opt_or_empty(p.branch), 12);
    lemma_fixed_cell_width(row_git(p), 14);
    lemma_fixed_cell_width(row_runtime(p), 10);
    let r = pane_row_spec(p);
    let sep = row_sep();
    assert(r == a + sep + b + sep + c + sep + d + sep + e);
    assert(r.subrange(0, 12) =~= a);
    assert(r.subrange(12, 15) =~= sep);
    assert(r.subrange(15, 33) =~= b);
    assert(r.subrange(33, 36) =~= sep);
    assert(r.subrange(36, 48) =~= c);
    assert(r.subrange(48, 51) =~= sep);
    assert(r.subrange(51, 65) =~= d);
    assert(r.subrange(65, 68) =~= sep);
    assert(r.subrange(68, 78) =~= e);
}

} // verus!
