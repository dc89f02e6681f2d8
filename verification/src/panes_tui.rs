//! State of the interactive pane switcher: the pane rows, the session
//! filter, the selection, and git details that arrive after the first draw.
use crate::model::{copy_string_opt, same_opt_task, TaskRecord};
use crate::order::{is_index_perm, stable_order, stably_sorted, SortKey};
use crate::panes::{
    copy_git_opt, find_task_for_session, git_label_opt, same_snapshot, task_for_session,
    PaneGitSummary, PaneSnapshot,
};
use crate::panes_support::{
    build_label_with_home, label_spec, opt_seq, pane_sort_key, ref_seq, sort_key_of,
    GitContext, PaneSortKey, RawPane,
};
use crate::config::PaneSwitcherHighlight;
use crate::overview_tui_helpers::{truncate, truncate_spec};
use crate::panes_tui_detail::{git_spans_spec, git_summary_spans, join_repo_branch, or_text, repo_with_branch};
use crate::style::{
    accent, fg, fg_bold, fg_bold_underlined, good, line, pane_text, plain, span, span_owned,
    span_views, surface, text_cell, StyledLine, TableRow, TextStyle,
};
use crate::text::{append_str, chars_of, from_chars, repeat_char};
use vstd::prelude::*;

verus! {

/// A row of the switcher: a pane and whether its git details have loaded.
#[derive(Clone, Debug)]
pub struct PaneEntry {
    pub snapshot: PaneSnapshot,
    pub metadata_loaded: bool,
}

/// The switcher: all panes, the rows shown (all panes, or those of the
/// current session), the selected row and how many shown rows have loaded.
#[derive(Debug)]
pub struct PaneSwitcherState {
    pub all_rows: Vec<PaneEntry>,
    pub rows: Vec<PaneEntry>,
    pub selected: usize,
    pub loaded_count: usize,
    pub current_session_only: bool,
    pub current_session_name: Option<String>,
}

/// Git details of one pane, found after the switcher opened.
#[derive(Debug)]
pub enum HydrationUpdate {
    PaneGit { pane_id: String, git: Option<PaneGitSummary> },
}

pub open spec fn same_entry(a: PaneEntry, b: PaneEntry) -> bool {
    same_snapshot(a.snapshot, b.snapshot) && a.metadata_loaded == b.metadata_loaded
}

impl PaneEntry {
    pub fn duplicate(&self) -> (r: Self)
        ensures
            same_entry(r, *self),
    {
        PaneEntry { snapshot: self.snapshot.duplicate(), metadata_loaded: self.metadata_loaded }
    }
}

// ---------------------------------------------------------------------
// Filtering and selection
// ---------------------------------------------------------------------

/// Whether a row is shown under the session filter.
pub open spec fn row_shown(e: PaneEntry, only: bool, name: Option<String>) -> bool {
    !only || match name {
        Some(n) => e.snapshot.session_name@ == n@,
        None => true,
    }
}

/// The positions of the rows that the filter shows, in order.
pub open spec fn shown_positions(rows: Seq<PaneEntry>, only: bool, name: Option<String>) -> Seq<
    int,
>
    decreases rows.len(),
{
    if rows.len() == 0 {
        Seq::empty()
    } else {
        let k = shown_positions(rows.drop_last(), only, name);
        if row_shown(rows.last(), only, name) {
            k.push(rows.len() - 1)
        } else {
            k
        }
    }
}

pub proof fn lemma_shown_positions_range(rows: Seq<PaneEntry>, only: bool, name: Option<String>)
    ensures
        forall|k: int|
            0 <= k < shown_positions(rows, only, name).len() ==> 0 <= #[trigger] shown_positions(
                rows,
                only,
                name,
            )[k] < rows.len(),
    decreases rows.len(),
{
    if rows.len() > 0 {
        lemma_shown_positions_range(rows.drop_last(), only, name);
        let k = shown_positions(rows.drop_last(), only, name);
        assert forall|i: int| 0 <= i < shown_positions(rows, only, name).len() implies 0
            <= #[trigger] shown_positions(rows, only, name)[i] < rows.len() by {
            if i < k.len() {
                assert(shown_positions(rows, only, name)[i] == k[i]);
            }
        }
    }
}

/// `r` lists copies of the rows of `rows` that the filter shows.
pub open spec fn filtered_from(
    r: Seq<PaneEntry>,
    rows: Seq<PaneEntry>,
    only: bool,
    name: Option<String>,
) -> bool {
    let pos = shown_positions(rows, only, name);
    &&& r.len() == pos.len()
    &&& forall|k: int| 0 <= k < r.len() ==> same_entry(#[trigger] r[k], rows[pos[k]])
}

/// The rows that the session filter shows: all of them unless
/// `current_session_only`, and then those of the current session (all of
/// them when the current session is unknown).
pub fn filter_rows(
    rows: &Vec<PaneEntry>,
    current_session_only: bool,
    current_session_name: &Option<String>,
) -> (r: Vec<PaneEntry>)
    ensures
        filtered_from(r@, rows@, current_session_only, *current_session_name),
{
    let mut out: Vec<PaneEntry> = Vec::new();
    let mut i: usize = 0;
    while i < rows.len()
        invariant
            i <= rows.len(),
            filtered_from(out@, rows@.take(i as int), current_session_only, *current_session_name),
            forall|k: int|
                0 <= k < shown_positions(
                    rows@.take(i as int),
                    current_session_only,
                    *current_session_name,
                ).len() ==> #[trigger] shown_positions(
                    rows@.take(i as int),
                    current_session_only,
                    *current_session_name,
                )[k] < i,
        decreases rows.len() - i,
    {
        proof {
            assert(rows@.take(i + 1).drop_last() =~= rows@.take(i as int));
            assert(rows@.take(i + 1).last() == rows@[i as int]);
            lemma_shown_positions_range(rows@.take(i as int), current_session_only, *current_session_name);
        }
        let shown = !current_session_only || match current_session_name {
            Some(n) => rows[i].snapshot.session_name == *n,
            None => true,
        };
        if shown {
            out.push(rows[i].duplicate());
        }
        proof {
            let pos_old = shown_positions(rows@.take(i as int), current_session_only, *current_session_name);
            let pos_new = shown_positions(rows@.take(i + 1), current_session_only, *current_session_name);
            assert forall|k: int| 0 <= k < pos_old.len() implies #[trigger] rows@.take(i + 1)[pos_old[k]]
                == rows@.take(i as int)[pos_old[k]] by {}
            assert forall|k: int| 0 <= k < out@.len() implies same_entry(
                #[trigger] out@[k],
                rows@.take(i + 1)[pos_new[k]],
            ) by {
                if k < pos_old.len() {
                    assert(pos_new[k] == pos_old[k]);
                }
            }
        }
        i += 1;
    }
    proof {
        assert(rows@.take(rows@.len() as int) =~= rows@);
    }
    out
}

proof fn lemma_shown_positions_shown(rows: Seq<PaneEntry>, only: bool, name: Option<String>)
    ensures
        shown_positions(rows, only, name).len() <= rows.len(),
        forall|k: int|
            0 <= k < shown_positions(rows, only, name).len() ==> row_shown(
                rows[#[trigger] shown_positions(rows, only, name)[k]],
                only,
                name,
            ),
    decreases rows.len(),
{
    if rows.len() > 0 {
        lemma_shown_positions_shown(rows.drop_last(), only, name);
        lemma_shown_positions_range(rows.drop_last(), only, name);
        let p = shown_positions(rows.drop_last(), only, name);
        assert forall|k: int| 0 <= k < shown_positions(rows, only, name).len() implies row_shown(
            rows[#[trigger] shown_positions(rows, only, name)[k]],
            only,
            name,
        ) by {
            if k < p.len() {
                assert(shown_positions(rows, only, name)[k] == p[k]);
                assert(rows[p[k]] == rows.drop_last()[p[k]]);
            }
        }
    }
}

proof fn lemma_all_shown(rows: Seq<PaneEntry>, only: bool, name: Option<String>)
    requires
        forall|k: int| 0 <= k < rows.len() ==> row_shown(#[trigger] rows[k], only, name),
    ensures
        shown_positions(rows, only, name) == Seq::new(rows.len(), |k: int| k),
    decreases rows.len(),
{
    if rows.len() > 0 {
        lemma_all_shown(rows.drop_last(), only, name);
        assert(row_shown(rows[rows.len() - 1], only, name));
        assert(shown_positions(rows, only, name) =~= Seq::new(rows.len(), |k: int| k));
    }
}

/// Filtering the rows a second time with the same filter changes nothing,
/// and filtering never adds rows.
pub proof fn lemma_filter_idempotent(
    rows: Seq<PaneEntry>,
    once: Seq<PaneEntry>,
    twice: Seq<PaneEntry>,
    only: bool,
    name: Option<String>,
)
    requires
        filtered_from(once, rows, only, name),
        filtered_from(twice, once, only, name),
    ensures
        once.len() <= rows.len(),
        twice.len() == once.len(),
        forall|k: int| 0 <= k < twice.len() ==> same_entry(#[trigger] twice[k], once[k]),
{
    lemma_shown_positions_shown(rows, only, name);
    let pos = shown_positions(rows, only, name);
    assert forall|k: int| 0 <= k < once.len() implies row_shown(#[trigger] once[k], only, name) by {
        assert(same_entry(once[k], rows[pos[k]]));
        assert(row_shown(rows[pos[k]], only, name));
    }
    lemma_all_shown(once, only, name);
}

/// The first row showing the pane with id `id`.
pub open spec fn first_with_id(rows: Seq<PaneEntry>, id: Seq<char>) -> Option<int>
    decreases rows.len(),
{
    if rows.len() == 0 {
        None
    } else {
        match first_with_id(rows.drop_last(), id) {
            Some(i) => Some(i),
            None => if rows.last().snapshot.pane_id@ == id {
                Some(rows.len() - 1)
            } else {
                None
            },
        }
    }
}

/// The first row showing the current pane.
pub open spec fn first_current_row(rows: Seq<PaneEntry>) -> Option<int>
    decreases rows.len(),
{
    if rows.len() == 0 {
        None
    } else {
        match first_current_row(rows.drop_last()) {
            Some(i) => Some(i),
            None => if rows.last().snapshot.current {
                Some(rows.len() - 1)
            } else {
                None
            },
        }
    }
}

/// The row selected on opening: the row of the source pane, else the row
/// of the current pane, else the first.
pub open spec fn initial_selection(rows: Seq<PaneEntry>, source: Option<Seq<char>>) -> int {
    let by_source = match source {
        Some(id) => first_with_id(rows, id),
        None => None,
    };
    match by_source {
        Some(i) => i,
        None => match first_current_row(rows) {
            Some(i) => i,
            None => 0,
        },
    }
}

proof fn lemma_first_with_id_found(rows: Seq<PaneEntry>, id: Seq<char>, i: int)
    requires
        0 <= i < rows.len(),
        first_with_id(rows.take(i), id) is None,
        rows[i].snapshot.pane_id@ == id,
    ensures
        first_with_id(rows, id) == Some(i),
    decreases rows.len() - i,
{
    assert(rows.take(i + 1).drop_last() =~= rows.take(i));
    lemma_first_with_id_keep(rows, id, i + 1, i);
}

proof fn lemma_first_with_id_keep(rows: Seq<PaneEntry>, id: Seq<char>, j: int, i: int)
    requires
        0 <= i < j <= rows.len(),
        first_with_id(rows.take(j), id) == Some(i),
    ensures
        first_with_id(rows, id) == Some(i),
    decreases rows.len() - j,
{
    if j < rows.len() {
        assert(rows.take(j + 1).drop_last() =~= rows.take(j));
        lemma_first_with_id_keep(rows, id, j + 1, i);
    } else {
        assert(rows.take(j) =~= rows);
    }
}

proof fn lemma_first_current_row_found(rows: Seq<PaneEntry>, i: int)
    requires
        0 <= i < rows.len(),
        first_current_row(rows.take(i)) is None,
        rows[i].snapshot.current,
    ensures
        first_current_row(rows) == Some(i),
    decreases rows.len() - i,
{
    assert(rows.take(i + 1).drop_last() =~= rows.take(i));
    lemma_first_current_row_keep(rows, i + 1, i);
}

proof fn lemma_first_current_row_keep(rows: Seq<PaneEntry>, j: int, i: int)
    requires
        0 <= i < j <= rows.len(),
        first_current_row(rows.take(j)) == Some(i),
    ensures
        first_current_row(rows) == Some(i),
    decreases rows.len() - j,
{
    if j < rows.len() {
        assert(rows.take(j + 1).drop_last() =~= rows.take(j));
        lemma_first_current_row_keep(rows, j + 1, i);
    } else {
        assert(rows.take(j) =~= rows);
    }
}

fn find_pane_row(rows: &Vec<PaneEntry>, id: &str) -> (r: Option<usize>)
    ensures
        match r {
            Some(i) => first_with_id(rows@, id@) == Some(i as int) && i < rows@.len(),
            None => first_with_id(rows@, id@) is None,
        },
{
    let mut i: usize = 0;
    while i < rows.len()
        invariant
            i <= rows.len(),
            first_with_id(rows@.take(i as int), id@) is None,
        decreases rows.len() - i,
    {
        proof {
            assert(rows@.take(i + 1).drop_last() =~= rows@.take(i as int));
        }
        if crate::text::chars_eq(
            &crate::text::chars_of(rows[i].snapshot.pane_id.as_str()),
            &crate::text::chars_of(id),
        ) {
            proof {
                lemma_first_with_id_found(rows@, id@, i as int);
            }
            return Some(i);
        }
        i += 1;
    }
    proof {
        assert(rows@.take(rows@.len() as int) =~= rows@);
    }
    None
}

fn find_current_row(rows: &Vec<PaneEntry>) -> (r: Option<usize>)
    ensures
        match r {
            Some(i) => first_current_row(rows@) == Some(i as int) && i < rows@.len(),
            None => first_current_row(rows@) is None,
        },
{
    let mut i: usize = 0;
    while i < rows.len()
        invariant
            i <= rows.len(),
            first_current_row(rows@.take(i as int)) is None,
        decreases rows.len() - i,
    {
        proof {
            assert(rows@.take(i + 1).drop_last() =~= rows@.take(i as int));
        }
        if rows[i].snapshot.current {
            proof {
                lemma_first_current_row_found(rows@, i as int);
            }
            return Some(i);
        }
        i += 1;
    }
    proof {
        assert(rows@.take(rows@.len() as int) =~= rows@);
    }
    None
}

/// The number of rows whose git details have loaded.
pub open spec fn loaded_rows(rows: Seq<PaneEntry>) -> nat
    decreases rows.len(),
{
    if rows.len() == 0 {
        0
    } else {
        loaded_rows(rows.drop_last()) + if rows.last().metadata_loaded {
            1nat
        } else {
            0nat
        }
    }
}

proof fn lemma_loaded_rows_bound(rows: Seq<PaneEntry>)
    ensures
        loaded_rows(rows) <= rows.len(),
    decreases rows.len(),
{
    if rows.len() > 0 {
        lemma_loaded_rows_bound(rows.drop_last());
    }
}

fn count_loaded(rows: &Vec<PaneEntry>) -> (r: usize)
    ensures
        r == loaded_rows(rows@),
{
    let mut n: usize = 0;
    let mut i: usize = 0;
    while i < rows.len()
        invariant
            i <= rows.len(),
            n == loaded_rows(rows@.take(i as int)),
        decreases rows.len() - i,
    {
        proof {
            assert(rows@.take(i + 1).drop_last() =~= rows@.take(i as int));
            lemma_loaded_rows_bound(rows@.take(i as int));
        }
        if rows[i].metadata_loaded {
            n += 1;
        }
        i += 1;
    }
    proof {
        assert(rows@.take(rows@.len() as int) =~= rows@);
    }
    n
}

// ---------------------------------------------------------------------
// Git details arriving
// ---------------------------------------------------------------------

/// The label of the pane in `s`, with git details `git`.
pub open spec fn entry_label(s: PaneSnapshot, git: Option<PaneGitSummary>, home: Option<Seq<char>>) -> Seq<
    char,
> {
    label_spec(
        s.pane_current_command@,
        s.pane_current_path@,
        s.task,
        opt_seq(s.repo),
        opt_seq(s.branch),
        git_label_opt(git),
        home,
    )
}

/// `b` is `a` after git details `git` arrived: unchanged if `a` had loaded
/// them already, else with `git`, the label that shows it, and loaded.
pub open spec fn git_applied(
    b: PaneEntry,
    a: PaneEntry,
    git: Option<PaneGitSummary>,
    home: Option<Seq<char>>,
) -> bool {
    if a.metadata_loaded {
        same_entry(b, a)
    } else {
        &&& b.metadata_loaded
        &&& b.snapshot.git == git
        &&& b.snapshot.label@ == entry_label(a.snapshot, git, home)
        &&& same_snapshot(
            b.snapshot,
            PaneSnapshot { git: b.snapshot.git, label: b.snapshot.label, ..a.snapshot },
        )
    }
}

/// The tmux pane that a snapshot shows.
pub fn snapshot_to_raw(snapshot: &PaneSnapshot) -> (r: RawPane)
    ensures
        r.session_name == snapshot.session_name,
        r.window_id == snapshot.window_id,
        r.window_index == snapshot.window_index,
        r.window_name == snapshot.window_name,
        r.pane_id == snapshot.pane_id,
        r.pane_index == snapshot.pane_index,
        r.pane_active == snapshot.pane_active,
        r.window_bell_flag == snapshot.window_bell_flag,
        r.pane_current_path == snapshot.pane_current_path,
        r.pane_current_command == snapshot.pane_current_command,
        r.pane_title == snapshot.pane_title,
{
    RawPane {
        session_name: snapshot.session_name.clone(),
        window_id: snapshot.window_id.clone(),
        window_index: snapshot.window_index,
        window_name: snapshot.window_name.clone(),
        pane_id: snapshot.pane_id.clone(),
        pane_index: snapshot.pane_index,
        pane_active: snapshot.pane_active,
        window_bell_flag: snapshot.window_bell_flag,
        pane_current_path: snapshot.pane_current_path.clone(),
        pane_current_command: snapshot.pane_current_command.clone(),
        pane_title: snapshot.pane_title.clone(),
    }
}

fn opt_str(o: &Option<String>) -> (r: Option<&str>)
    ensures
        ref_seq(r) == opt_seq(*o),
{
    match o {
        Some(s) => Some(s.as_str()),
        None => None,
    }
}

/// Records the git details of an entry, with `home` written as `~` in its
/// label. It reports whether the entry now has its details, which is
/// always so.
pub fn apply_git_update_with_home(
    entry: &mut PaneEntry,
    git: Option<PaneGitSummary>,
    home: Option<&str>,
) -> (r: bool)
    ensures
        r,
        git_applied(*final(entry), *old(entry), git, ref_seq(home)),
{
    if entry.metadata_loaded {
        return true;
    }
    let raw = snapshot_to_raw(&entry.snapshot);
    let git_ref: Option<&PaneGitSummary> = match &git {
        Some(g) => Some(g),
        None => None,
    };
    let task_ref: Option<&TaskRecord> = match &entry.snapshot.task {
        Some(t) => Some(t),
        None => None,
    };
    let label = build_label_with_home(
        &raw,
        task_ref,
        opt_str(&entry.snapshot.repo),
        opt_str(&entry.snapshot.branch),
        git_ref,
        home,
    );
    entry.snapshot.git = git;
    entry.snapshot.label = label;
    entry.metadata_loaded = true;
    true
}

/// The first entry showing pane `id`, if any, after git details arrived.
pub open spec fn rows_after_git(
    b: Seq<PaneEntry>,
    a: Seq<PaneEntry>,
    id: Seq<char>,
    git: Option<PaneGitSummary>,
    home: Option<Seq<char>>,
) -> bool {
    &&& b.len() == a.len()
    &&& match first_with_id(a, id) {
        Some(i) => {
            &&& git_applied(b[i], a[i], git, home)
            &&& forall|k: int| 0 <= k < a.len() && k != i ==> same_entry(#[trigger] b[k], a[k])
        },
        None => forall|k: int| 0 <= k < a.len() ==> same_entry(#[trigger] b[k], a[k]),
    }
}

fn update_first(
    rows: &mut Vec<PaneEntry>,
    id: &str,
    git: Option<PaneGitSummary>,
    home: Option<&str>,
) -> (found: bool)
    ensures
        found == first_with_id(old(rows)@, id@) is Some,
        rows_after_git(final(rows)@, old(rows)@, id@, git, ref_seq(home)),
{
    match find_pane_row(rows, id) {
        Some(i) => {
            let mut entry = rows[i].duplicate();
            apply_git_update_with_home(&mut entry, git, home);
            let ghost before = rows@;
            rows.set(i, entry);
            proof {
                assert forall|k: int| 0 <= k < before.len() && k != i implies same_entry(
                    #[trigger] rows@[k],
                    before[k],
                ) by {}
            }
            true
        },
        None => false,
    }
}

/// `b` is the switcher `a` after the update; `home` is written as `~`.
pub open spec fn update_applied(
    b: PaneSwitcherState,
    a: PaneSwitcherState,
    id: Seq<char>,
    git: Option<PaneGitSummary>,
    home: Option<Seq<char>>,
    updated: bool,
) -> bool {
    &&& updated == (first_with_id(a.all_rows@, id) is Some || first_with_id(a.rows@, id) is Some)
    &&& rows_after_git(b.all_rows@, a.all_rows@, id, git, home)
    &&& rows_after_git(b.rows@, a.rows@, id, git, home)
    &&& b.loaded_count == if updated {
        loaded_rows(b.rows@) as usize
    } else {
        a.loaded_count
    }
    &&& b.selected == a.selected
    &&& b.current_session_only == a.current_session_only
    &&& b.current_session_name == a.current_session_name
}

/// `b` is `a` with the session filter switched: the other filter, the
/// rows it shows, the previously selected pane still selected where it is
/// shown (else the current pane, else the first row), and the loaded count
/// of the new rows.
pub open spec fn toggled(b: PaneSwitcherState, a: PaneSwitcherState) -> bool {
    &&& b.current_session_only == !a.current_session_only
    &&& filtered_from(b.rows@, a.all_rows@, !a.current_session_only, a.current_session_name)
    &&& b.selected as int == initial_selection(
        b.rows@,
        if a.selected < a.rows@.len() {
            Some(a.rows@[a.selected as int].snapshot.pane_id@)
        } else {
            None
        },
    )
    &&& b.loaded_count == loaded_rows(b.rows@)
    &&& b.all_rows == a.all_rows
    &&& b.current_session_name == a.current_session_name
}

/// Switching the session filter twice brings back the filter and the rows
/// shown (of a state whose rows are those its filter shows).
pub proof fn lemma_toggle_twice(s0: PaneSwitcherState, s1: PaneSwitcherState, s2: PaneSwitcherState)
    requires
        filtered_from(s0.rows@, s0.all_rows@, s0.current_session_only, s0.current_session_name),
        toggled(s1, s0),
        toggled(s2, s1),
    ensures
        s2.current_session_only == s0.current_session_only,
        s2.all_rows == s0.all_rows,
        s2.current_session_name == s0.current_session_name,
        s2.rows@.len() == s0.rows@.len(),
        forall|k: int| 0 <= k < s2.rows@.len() ==> same_entry(#[trigger] s2.rows@[k], s0.rows@[k]),
{
}

proof fn lemma_first_with_id_same_ids(b: Seq<PaneEntry>, a: Seq<PaneEntry>, id: Seq<char>)
    requires
        b.len() == a.len(),
        forall|k: int| 0 <= k < a.len() ==> (#[trigger] b[k]).snapshot.pane_id == a[k].snapshot.pane_id,
    ensures
        first_with_id(b, id) == first_with_id(a, id),
    decreases a.len(),
{
    if a.len() > 0 {
        lemma_first_with_id_same_ids(b.drop_last(), a.drop_last(), id);
        assert(b.last() == b[b.len() - 1]);
    }
}

proof fn lemma_loaded_rows_same(b: Seq<PaneEntry>, a: Seq<PaneEntry>)
    requires
        b.len() == a.len(),
        forall|k: int| 0 <= k < a.len() ==> same_entry(#[trigger] b[k], a[k]),
    ensures
        loaded_rows(b) == loaded_rows(a),
    decreases a.len(),
{
    if a.len() > 0 {
        lemma_loaded_rows_same(b.drop_last(), a.drop_last());
        assert(same_entry(b[b.len() - 1], a[a.len() - 1]));
    }
}

/// Applying git details twice to a list changes nothing the second time.
proof fn lemma_rows_after_git_twice(
    c: Seq<PaneEntry>,
    b: Seq<PaneEntry>,
    a: Seq<PaneEntry>,
    id: Seq<char>,
    git: Option<PaneGitSummary>,
    home: Option<Seq<char>>,
    home2: Option<Seq<char>>,
)
    requires
        rows_after_git(b, a, id, git, home),
        rows_after_git(c, b, id, git, home2),
    ensures
        first_with_id(b, id) == first_with_id(a, id),
        c.len() == b.len(),
        forall|k: int| 0 <= k < c.len() ==> same_entry(#[trigger] c[k], b[k]),
{
    assert forall|k: int| 0 <= k < a.len() implies (#[trigger] b[k]).snapshot.pane_id
        == a[k].snapshot.pane_id by {
        if first_with_id(a, id) == Some(k) {
            assert(git_applied(b[k], a[k], git, home));
        } else {
            assert(same_entry(b[k], a[k]));
        }
    }
    lemma_first_with_id_same_ids(b, a, id);
    match first_with_id(a, id) {
        Some(i) => {
            assert(git_applied(b[i], a[i], git, home));
            assert(b[i].metadata_loaded);
            assert(git_applied(c[i], b[i], git, home2));
        },
        None => {},
    }
}

/// Git details that arrive twice for a pane change nothing the second
/// time: the update reports the same, and every row and count stays.
pub proof fn lemma_update_twice(
    c: PaneSwitcherState,
    b: PaneSwitcherState,
    a: PaneSwitcherState,
    id: Seq<char>,
    git: Option<PaneGitSummary>,
    home: Option<Seq<char>>,
    home2: Option<Seq<char>>,
    first: bool,
    second: bool,
)
    requires
        update_applied(b, a, id, git, home, first),
        update_applied(c, b, id, git, home2, second),
    ensures
        second == first,
        c.all_rows@.len() == b.all_rows@.len(),
        forall|k: int| 0 <= k < c.all_rows@.len() ==> same_entry(#[trigger] c.all_rows@[k], b.all_rows@[k]),
        c.rows@.len() == b.rows@.len(),
        forall|k: int| 0 <= k < c.rows@.len() ==> same_entry(#[trigger] c.rows@[k], b.rows@[k]),
        c.loaded_count == b.loaded_count,
        c.selected == b.selected,
        c.current_session_only == b.current_session_only,
        c.current_session_name == b.current_session_name,
{
    lemma_rows_after_git_twice(c.all_rows@, b.all_rows@, a.all_rows@, id, git, home, home2);
    lemma_rows_after_git_twice(c.rows@, b.rows@, a.rows@, id, git, home, home2);
    lemma_loaded_rows_same(c.rows@, b.rows@);
}

impl PaneSwitcherState {
    /// The row selected on opening, for the source pane `source_pane_id`.
    pub fn initial_selected(&self, source_pane_id: Option<&str>) -> (r: usize)
        ensures
            r as int == initial_selection(self.rows@, ref_seq(source_pane_id)),
    {
        let by_source = match source_pane_id {
            Some(id) => find_pane_row(&self.rows, id),
            None => None,
        };
        match by_source {
            Some(i) => i,
            None => match find_current_row(&self.rows) {
                Some(i) => i,
                None => 0,
            },
        }
    }

    /// `selected`, kept within the rows (0 when there are none).
    pub fn clamp_selected(&self, selected: usize) -> (r: usize)
        ensures
            self.rows@.len() == 0 ==> r == 0,
            self.rows@.len() > 0 ==> r == if selected < self.rows@.len() {
                selected as int
            } else {
                self.rows@.len() - 1
            },
    {
        if self.rows.len() == 0 {
            0
        } else if selected < self.rows.len() - 1 {
            selected
        } else {
            self.rows.len() - 1
        }
    }

    /// Recounts the shown rows whose details have loaded.
    pub fn refresh_loaded_count(&mut self)
        ensures
            final(self).loaded_count == loaded_rows(old(self).rows@),
            final(self).rows == old(self).rows,
            final(self).all_rows == old(self).all_rows,
            final(self).selected == old(self).selected,
            final(self).current_session_only == old(self).current_session_only,
            final(self).current_session_name == old(self).current_session_name,
    {
        self.loaded_count = count_loaded(&self.rows);
    }

    /// Shows the rows that the filter now shows, selecting the row of
    /// `selected_pane_id` (or the current pane, or the first).
    pub fn rebuild_rows(&mut self, selected_pane_id: Option<&str>)
        ensures
            filtered_from(
                final(self).rows@,
                old(self).all_rows@,
                old(self).current_session_only,
                old(self).current_session_name,
            ),
            final(self).selected as int == initial_selection(
                final(self).rows@,
                ref_seq(selected_pane_id),
            ),
            final(self).loaded_count == loaded_rows(final(self).rows@),
            final(self).all_rows == old(self).all_rows,
            final(self).current_session_only == old(self).current_session_only,
            final(self).current_session_name == old(self).current_session_name,
    {
        self.rows = filter_rows(&self.all_rows, self.current_session_only, &self.current_session_name);
        self.selected = self.initial_selected(selected_pane_id);
        self.refresh_loaded_count();
    }

    /// Switches between showing all panes and those of the current
    /// session, keeping the selected pane selected where it is still shown.
    pub fn toggle_current_session_only(&mut self)
        ensures
            toggled(*final(self), *old(self)),
    {
        self.current_session_only = !self.current_session_only;
        let selected_pane_id: Option<String> = if self.selected < self.rows.len() {
            Some(self.rows[self.selected].snapshot.pane_id.clone())
        } else {
            None
        };
        match &selected_pane_id {
            Some(id) => self.rebuild_rows(Some(id.as_str())),
            None => self.rebuild_rows(None),
        }
    }

    /// Records git details that arrived for a pane, with `home` written as
    /// `~` in labels. It reports whether a row shows that pane.
    pub fn apply_update_with_home(&mut self, update: HydrationUpdate, home: Option<&str>) -> (r:
        bool)
        ensures
            match update {
                HydrationUpdate::PaneGit { pane_id, git } => update_applied(
                    *final(self),
                    *old(self),
                    pane_id@,
                    git,
                    ref_seq(home),
                    r,
                ),
            },
    {
        match update {
            HydrationUpdate::PaneGit { pane_id, git } => {
                let git_copy = copy_git_opt(&git);
                let in_all = update_first(&mut self.all_rows, pane_id.as_str(), git_copy, home);
                let in_rows = update_first(&mut self.rows, pane_id.as_str(), git, home);
                let updated = in_all || in_rows;
                if updated {
                    self.refresh_loaded_count();
                }
                updated
            },
        }
    }

    /// Records git details that arrived for a pane. Labels write as `~`
    /// the home directory that `dirs::home_dir` reports.
    pub fn apply_update(&mut self, update: HydrationUpdate) -> (r: bool)
        ensures
            match update {
                HydrationUpdate::PaneGit { pane_id, git } => exists|home: Option<Seq<char>>|
                    update_applied(*final(self), *old(self), pane_id@, git, home, r),
            },
    {
        let home_text = crate::config::home_dir_text();
        match &home_text {
            Some(h) => self.apply_update_with_home(update, Some(h.as_str())),
            None => self.apply_update_with_home(update, None),
        }
    }
}

/// The marker before a row: an arrow on the selected row when arrows are
/// on, a dot on the current pane, else a space.
pub open spec fn marker_spec(current: bool, selected: bool, show_arrow: bool) -> Seq<char> {
    if selected && show_arrow {
        "\u{25b6}"@
    } else if current {
        "\u{25cf}"@
    } else {
        " "@
    }
}

impl PaneEntry {
    pub fn marker(&self, selected: bool, show_arrow: bool) -> (r: &'static str)
        ensures
            r@ == marker_spec(self.snapshot.current, selected, show_arrow),
    {
        if selected && show_arrow {
            "\u{25b6}"
        } else if self.snapshot.current {
            "\u{25cf}"
        } else {
            " "
        }
    }
}

// ---------------------------------------------------------------------
// Opening the switcher
// ---------------------------------------------------------------------

pub open spec fn ctx_field(ctx: Option<GitContext>, which: int) -> Option<Seq<char>> {
    match ctx {
        Some(c) => if which == 0 {
            Some(c.repo_root@)
        } else {
            Some(c.repo@)
        },
        None => None,
    }
}

pub open spec fn ctx_branch(ctx: Option<GitContext>) -> Option<Seq<char>> {
    match ctx {
        Some(c) => opt_seq(c.branch),
        None => None,
    }
}

/// The repository root, repository and branch of a row: the task's where
/// the pane runs a task, else git's.
pub open spec fn entry_repo_root(task: Option<TaskRecord>, ctx: Option<GitContext>) -> Option<Seq<char>> {
    match task {
        Some(t) => Some(t.repo_root@),
        None => ctx_field(ctx, 0),
    }
}

pub open spec fn entry_repo(task: Option<TaskRecord>, ctx: Option<GitContext>) -> Option<Seq<char>> {
    match task {
        Some(t) => Some(t.repo@),
        None => ctx_field(ctx, 1),
    }
}

pub open spec fn entry_branch(task: Option<TaskRecord>, ctx: Option<GitContext>) -> Option<Seq<char>> {
    match task {
        Some(t) => match t.branch {
            Some(b) => Some(b@),
            None => ctx_branch(ctx),
        },
        None => ctx_branch(ctx),
    }
}

/// `e` is the row of the tmux pane `raw` before git details arrive.
pub open spec fn entry_of(
    e: PaneEntry,
    raw: RawPane,
    tasks: Seq<TaskRecord>,
    ctx: Option<GitContext>,
    current_pane: Option<Seq<char>>,
    home: Option<Seq<char>>,
) -> bool {
    let task = task_for_session(tasks, raw.session_name@);
    let s = e.snapshot;
    &&& !e.metadata_loaded
    &&& s.current == (current_pane == Some(raw.pane_id@))
    &&& s.managed_by_swarmux == task is Some
    &&& s.session_name == raw.session_name
    &&& s.window_id == raw.window_id
    &&& s.window_index == raw.window_index
    &&& s.window_name == raw.window_name
    &&& s.pane_id == raw.pane_id
    &&& s.pane_index == raw.pane_index
    &&& s.pane_active == raw.pane_active
    &&& s.window_bell_flag == raw.window_bell_flag
    &&& s.pane_current_path == raw.pane_current_path
    &&& s.pane_current_command == raw.pane_current_command
    &&& s.pane_title == raw.pane_title
    &&& same_opt_task(s.task, task)
    &&& opt_seq(s.repo_root) == entry_repo_root(task, ctx)
    &&& opt_seq(s.repo) == entry_repo(task, ctx)
    &&& opt_seq(s.branch) == entry_branch(task, ctx)
    &&& s.git is None
    &&& s.label@ == label_spec(
        raw.pane_current_command@,
        raw.pane_current_path@,
        task,
        entry_repo(task, ctx),
        entry_branch(task, ctx),
        None,
        home,
    )
}

/// The row of a tmux pane before git details arrive; `git_context` is the
/// repository around its directory.
pub fn build_entry(
    raw: &RawPane,
    tasks: &Vec<TaskRecord>,
    current_pane_id: Option<&str>,
    git_context: &Option<GitContext>,
    home: Option<&str>,
) -> (e: PaneEntry)
    ensures
        entry_of(e, *raw, tasks@, *git_context, ref_seq(current_pane_id), ref_seq(home)),
{
    let task = find_task_for_session(tasks, &raw.session_name);
    let repo_root: Option<String> = match task {
        Some(t) => Some(t.repo_root.clone()),
        None => match git_context {
            Some(c) => Some(c.repo_root.clone()),
            None => None,
        },
    };
    let repo: Option<String> = match task {
        Some(t) => Some(t.repo.clone()),
        None => match git_context {
            Some(c) => Some(c.repo.clone()),
            None => None,
        },
    };
    let branch: Option<String> = match task {
        Some(t) => match &t.branch {
            Some(b) => Some(b.clone()),
            None => match git_context {
                Some(c) => copy_string_opt(&c.branch),
                None => None,
            },
        },
        None => match git_context {
            Some(c) => copy_string_opt(&c.branch),
            None => None,
        },
    };
    let current = match current_pane_id {
        Some(id) => crate::text::chars_eq(
            &crate::text::chars_of(id),
            &crate::text::chars_of(raw.pane_id.as_str()),
        ),
        None => false,
    };
    let label = build_label_with_home(raw, task, opt_str(&repo), opt_str(&branch), None, home);
    let task_copy = match task {
        Some(t) => Some(t.duplicate()),
        None => None,
    };
    PaneEntry {
        snapshot: PaneSnapshot {
            current,
            managed_by_swarmux: task.is_some(),
            session_name: raw.session_name.clone(),
            window_id: raw.window_id.clone(),
            window_index: raw.window_index,
            window_name: raw.window_name.clone(),
            pane_id: raw.pane_id.clone(),
            pane_index: raw.pane_index,
            pane_active: raw.pane_active,
            window_bell_flag: raw.window_bell_flag,
            pane_current_path: raw.pane_current_path.clone(),
            pane_current_command: raw.pane_current_command.clone(),
            pane_title: raw.pane_title.clone(),
            task: task_copy,
            repo_root,
            repo,
            branch,
            git: None,
            label,
        },
        metadata_loaded: false,
    }
}

/// The positions of the panes other than the excluded one, in order.
pub open spec fn kept_raw_positions(raws: Seq<RawPane>, excluded: Option<Seq<char>>) -> Seq<int>
    decreases raws.len(),
{
    if raws.len() == 0 {
        Seq::empty()
    } else {
        let k = kept_raw_positions(raws.drop_last(), excluded);
        if excluded == Some(raws.last().pane_id@) {
            k
        } else {
            k.push(raws.len() - 1)
        }
    }
}

proof fn lemma_kept_raw_positions_range(raws: Seq<RawPane>, excluded: Option<Seq<char>>)
    ensures
        forall|k: int|
            0 <= k < kept_raw_positions(raws, excluded).len() ==> 0
                <= #[trigger] kept_raw_positions(raws, excluded)[k] < raws.len(),
    decreases raws.len(),
{
    if raws.len() > 0 {
        lemma_kept_raw_positions_range(raws.drop_last(), excluded);
        let k = kept_raw_positions(raws.drop_last(), excluded);
        assert forall|i: int| 0 <= i < kept_raw_positions(raws, excluded).len() implies 0
            <= #[trigger] kept_raw_positions(raws, excluded)[i] < raws.len() by {
            if i < k.len() {
                assert(kept_raw_positions(raws, excluded)[i] == k[i]);
            }
        }
    }
}

/// `rows` are the rows of the panes other than the excluded one, in
/// stable order of sort keys: row `k` is the row of pane
/// `raws[pos[idx[k]]]`, where `pos` lists the positions kept.
pub open spec fn switcher_rows_of(
    rows: Seq<PaneEntry>,
    raws: Seq<RawPane>,
    tasks: Seq<TaskRecord>,
    ctxs: Seq<Option<GitContext>>,
    current_pane: Option<Seq<char>>,
    excluded: Option<Seq<char>>,
    idx: Seq<usize>,
    home: Option<Seq<char>>,
) -> bool {
    let pos = kept_raw_positions(raws, excluded);
    &&& is_index_perm(idx, pos.len())
    &&& rows.len() == pos.len()
    &&& forall|k: int|
        0 <= k < rows.len() ==> entry_of(
            #[trigger] rows[k],
            raws[pos[idx[k] as int]],
            tasks,
            ctxs[pos[idx[k] as int]],
            current_pane,
            home,
        )
    &&& forall|a: int, b: int|
        #![trigger rows[a], rows[b]]
        0 <= a < b < rows.len() ==> PaneSortKey::key_le(
            sort_key_of(rows[a].snapshot),
            sort_key_of(rows[b].snapshot),
        ) && (PaneSortKey::key_le(sort_key_of(rows[b].snapshot), sort_key_of(rows[a].snapshot))
            ==> idx[a] < idx[b])
}

/// The switcher as it opens: a row for each tmux pane in `raw_panes`
/// except `excluded_pane_id` (the sidebar itself), sorted stably by
/// [`pane_sort_key`], with the session filter applied. `git_contexts[i]`
/// is the repository around the directory of pane `i`.
pub fn open_switcher(
    tasks: &Vec<TaskRecord>,
    raw_panes: &Vec<RawPane>,
    git_contexts: &Vec<Option<GitContext>>,
    current_pane_id: Option<String>,
    excluded_pane_id: Option<String>,
    current_session_only: bool,
    current_session_name: Option<String>,
) -> (r: PaneSwitcherState)
    requires
        git_contexts@.len() == raw_panes@.len(),
    ensures
        exists|idx: Seq<usize>, home: Option<Seq<char>>|
            #[trigger] switcher_rows_of(
                r.all_rows@,
                raw_panes@,
                tasks@,
                git_contexts@,
                opt_seq(current_pane_id),
                opt_seq(excluded_pane_id),
                idx,
                home,
            ),
        filtered_from(r.rows@, r.all_rows@, current_session_only, current_session_name),
        r.selected == 0,
        r.loaded_count == 0,
        r.current_session_only == current_session_only,
        r.current_session_name == current_session_name,
{
    let home_text = crate::config::home_dir_text();
    let home: Option<&str> = match &home_text {
        Some(h) => Some(h.as_str()),
        None => None,
    };
    let ghost cur = opt_seq(current_pane_id);
    let ghost excl = opt_seq(excluded_pane_id);
    let r = open_switcher_with_home(
        tasks,
        raw_panes,
        git_contexts,
        current_pane_id,
        excluded_pane_id,
        current_session_only,
        current_session_name,
        home,
    );
    let ghost idx = choose|idx: Seq<usize>|
        switcher_rows_of(r.all_rows@, raw_panes@, tasks@, git_contexts@, cur, excl, idx, ref_seq(home));
    assert(switcher_rows_of(r.all_rows@, raw_panes@, tasks@, git_contexts@, cur, excl, idx, ref_seq(home)));
    r
}

/// The switcher as [`open_switcher`] opens it, with `home` as the home
/// directory that labels write as `~`.
pub fn open_switcher_with_home(
    tasks: &Vec<TaskRecord>,
    raw_panes: &Vec<RawPane>,
    git_contexts: &Vec<Option<GitContext>>,
    current_pane_id: Option<String>,
    excluded_pane_id: Option<String>,
    current_session_only: bool,
    current_session_name: Option<String>,
    home: Option<&str>,
) -> (r: PaneSwitcherState)
    requires
        git_contexts@.len() == raw_panes@.len(),
    ensures
        exists|idx: Seq<usize>|
            #[trigger] switcher_rows_of(
                r.all_rows@,
                raw_panes@,
                tasks@,
                git_contexts@,
                opt_seq(current_pane_id),
                opt_seq(excluded_pane_id),
                idx,
                ref_seq(home),
            ),
        filtered_from(r.rows@, r.all_rows@, current_session_only, current_session_name),
        r.selected == 0,
        r.loaded_count == 0,
        r.current_session_only == current_session_only,
        r.current_session_name == current_session_name,
{
    let current_ref = opt_str(&current_pane_id);
    let ghost raws = raw_panes@;
    let ghost ctxs = git_contexts@;
    let ghost excl = opt_seq(excluded_pane_id);
    let mut built: Vec<PaneEntry> = Vec::new();
    let mut keys: Vec<PaneSortKey> = Vec::new();
    let mut i: usize = 0;
    while i < raw_panes.len()
        invariant
            raws == raw_panes@,
            ctxs == git_contexts@,
            ctxs.len() == raws.len(),
            excl == opt_seq(excluded_pane_id),
            i <= raws.len(),
            built@.len() == kept_raw_positions(raws.take(i as int), excl).len(),
            keys@.len() == built@.len(),
            forall|k: int|
                0 <= k < built@.len() ==> entry_of(
                    #[trigger] built@[k],
                    raws[kept_raw_positions(raws.take(i as int), excl)[k]],
                    tasks@,
                    ctxs[kept_raw_positions(raws.take(i as int), excl)[k]],
                    ref_seq(current_ref),
                    ref_seq(home),
                ),
            forall|k: int| 0 <= k < keys@.len() ==> #[trigger] keys@[k] == sort_key_of(built@[k].snapshot),
        decreases raws.len() - i,
    {
        proof {
            assert(raws.take(i + 1).drop_last() =~= raws.take(i as int));
            assert(raws.take(i + 1).last() == raws[i as int]);
            lemma_kept_raw_positions_range(raws.take(i as int), excl);
        }
        let excluded = match &excluded_pane_id {
            Some(x) => *x == raw_panes[i].pane_id,
            None => false,
        };
        if !excluded {
            let e = build_entry(&raw_panes[i], tasks, current_ref, &git_contexts[i], home);
            keys.push(pane_sort_key(&e.snapshot));
            built.push(e);
        }
        proof {
            let old_pos = kept_raw_positions(raws.take(i as int), excl);
            let new_pos = kept_raw_positions(raws.take(i + 1), excl);
            assert forall|k: int| 0 <= k < old_pos.len() implies #[trigger] new_pos[k] == old_pos[k] by {}
        }
        i += 1;
    }
    proof {
        assert(raws.take(raws.len() as int) =~= raws);
    }
    let ghost pos = kept_raw_positions(raws, excl);
    let idx = stable_order(&keys);
    let n = built.len();
    let mut all_rows: Vec<PaneEntry> = Vec::new();
    let mut k: usize = 0;
    while k < n
        invariant
            n == built@.len() == keys@.len() == pos.len(),
            is_index_perm(idx@, n as nat),
            stably_sorted(keys@, idx@),
            forall|j: int| 0 <= j < n ==> #[trigger] keys@[j] == sort_key_of(built@[j].snapshot),
            k <= n,
            all_rows@.len() == k,
            forall|j: int| 0 <= j < k ==> same_entry(#[trigger] all_rows@[j], built@[idx@[j] as int]),
        decreases n - k,
    {
        all_rows.push(built[idx[k]].duplicate());
        k += 1;
    }
    proof {
        assert forall|a: int| 0 <= a < n implies entry_of(
            #[trigger] all_rows@[a],
            raws[pos[idx@[a] as int]],
            tasks@,
            ctxs[pos[idx@[a] as int]],
            opt_seq(current_pane_id),
            ref_seq(home),
        ) && sort_key_of(all_rows@[a].snapshot) == keys@[idx@[a] as int] by {
            let j = idx@[a] as int;
            assert(keys@[j] == sort_key_of(built@[j].snapshot));
        }
        assert forall|a: int, b: int|
            #![trigger all_rows@[a], all_rows@[b]]
            0 <= a < b < all_rows@.len() implies PaneSortKey::key_le(
            sort_key_of(all_rows@[a].snapshot),
            sort_key_of(all_rows@[b].snapshot),
        ) && (PaneSortKey::key_le(
            sort_key_of(all_rows@[b].snapshot),
            sort_key_of(all_rows@[a].snapshot),
        ) ==> idx@[a] < idx@[b]) by {
            assert(sort_key_of(all_rows@[a].snapshot) == keys@[idx@[a] as int]);
            assert(sort_key_of(all_rows@[b].snapshot) == keys@[idx@[b] as int]);
        }
        assert(switcher_rows_of(
            all_rows@,
            raws,
            tasks@,
            ctxs,
            opt_seq(current_pane_id),
            excl,
            idx@,
            ref_seq(home),
        ));
    }
    let ghost order = idx@;
    let ghost home_view = ref_seq(home);
    let rows = filter_rows(&all_rows, current_session_only, &current_session_name);
    let r = PaneSwitcherState {
        all_rows,
        rows,
        selected: 0,
        loaded_count: 0,
        current_session_only,
        current_session_name,
    };
    assert(switcher_rows_of(
        r.all_rows@,
        raw_panes@,
        tasks@,
        git_contexts@,
        opt_seq(current_pane_id),
        opt_seq(excluded_pane_id),
        order,
        home_view,
    ));
    r
}

// ---------------------------------------------------------------------
// Drawing rows
// ---------------------------------------------------------------------

/// The selected row under the solid highlight: inverted accent, bold.
pub open spec fn solid_spec() -> TextStyle {
    TextStyle { fg: Some(surface()), bg: Some(accent()), bold: true, underlined: false }
}

#[verifier::when_used_as_spec(solid_spec)]
pub fn solid() -> (s: TextStyle)
    ensures
        s == solid_spec(),
{
    TextStyle { fg: Some(surface()), bg: Some(accent()), bold: true, underlined: false }
}

/// The style of a table row: the highlight on the selected row, bold green
/// on the current pane, body text otherwise.
pub open spec fn row_style_spec(current: bool, selected: bool, mode: PaneSwitcherHighlight) -> TextStyle {
    if selected {
        match mode {
            PaneSwitcherHighlight::Solid => solid(),
            PaneSwitcherHighlight::Underline => fg_bold_underlined(accent()),
        }
    } else if current {
        fg_bold(good())
    } else {
        fg(pane_text())
    }
}

/// The style of a sidebar title: as [`row_style_spec`], except that the
/// underline highlight does not underline the title.
pub open spec fn title_style_spec(current: bool, selected: bool, mode: PaneSwitcherHighlight) -> TextStyle {
    if selected {
        match mode {
            PaneSwitcherHighlight::Solid => solid(),
            PaneSwitcherHighlight::Underline => fg_bold(accent()),
        }
    } else if current {
        fg_bold(good())
    } else {
        fg(pane_text())
    }
}

/// The text of a pane's repository cell.
pub open spec fn repo_text_of(s: PaneSnapshot) -> Seq<char> {
    repo_with_branch(or_text(s.repo, "n/a"@), or_text(s.branch, ""@))
}

/// The git label shown for a pane: its summary, or `n/a` / `loading`
/// depending on whether its details have loaded.
pub open spec fn git_text_of(s: PaneSnapshot, loaded: bool) -> Seq<char> {
    match s.git {
        Some(g) => g.label@,
        None => if loaded {
            "n/a"@
        } else {
            "loading"@
        },
    }
}

fn repo_text(s: &PaneSnapshot) -> (r: String)
    ensures
        r@ == repo_text_of(*s),
{
    let repo: &str = match &s.repo {
        Some(x) => x.as_str(),
        None => "n/a",
    };
    let branch: &str = match &s.branch {
        Some(x) => x.as_str(),
        None => "",
    };
    join_repo_branch(repo, branch)
}

fn git_text(s: &PaneSnapshot, loaded: bool) -> (r: String)
    ensures
        r@ == git_text_of(*s, loaded),
{
    match &s.git {
        Some(g) => g.label.clone(),
        None => String::from_str(if loaded { "n/a" } else { "loading" }),
    }
}

impl PaneEntry {
    pub fn row_style(&self, selected: bool, mode: PaneSwitcherHighlight) -> (r: TextStyle)
        ensures
            r == row_style_spec(self.snapshot.current, selected, mode),
    {
        if selected {
            match mode {
                PaneSwitcherHighlight::Solid => solid(),
                PaneSwitcherHighlight::Underline => fg_bold_underlined(accent()),
            }
        } else if self.snapshot.current {
            fg_bold(good())
        } else {
            fg(pane_text())
        }
    }

    /// The row of the pane table: marker, session, window, title,
    /// repository and git summary.
    pub fn row_cells(&self, selected: bool, mode: PaneSwitcherHighlight, show_arrow: bool) -> (r: TableRow)
        ensures
            r.style == row_style_spec(self.snapshot.current, selected, mode),
            r.cells@.len() == 6,
            span_views(r.cells@[0].spans@) == seq![
                (marker_spec(self.snapshot.current, selected, show_arrow), plain()),
            ],
            span_views(r.cells@[1].spans@) == seq![
                (truncate_spec(self.snapshot.session_name@, 18), plain()),
            ],
            span_views(r.cells@[2].spans@) == seq![
                (truncate_spec(self.snapshot.window_name@, 18), plain()),
            ],
            span_views(r.cells@[3].spans@) == seq![
                (truncate_spec(self.snapshot.pane_title@, 24), plain()),
            ],
            span_views(r.cells@[4].spans@) == seq![(repo_text_of(self.snapshot), fg(good()))],
            span_views(r.cells@[5].spans@) == git_spans_spec(
                git_text_of(self.snapshot, self.metadata_loaded),
                self.metadata_loaded,
            ),
            forall|k: int| 0 <= k < 6 ==> (#[trigger] r.cells@[k]).style == plain(),
    {
        let c0 = text_cell(String::from_str(self.marker(selected, show_arrow)));
        let c1 = text_cell(truncate(self.snapshot.session_name.as_str(), 18));
        let c2 = text_cell(truncate(self.snapshot.window_name.as_str(), 18));
        let c3 = text_cell(truncate(self.snapshot.pane_title.as_str(), 24));
        let c4 = line(vec![span_owned(repo_text(&self.snapshot), fg(good()))]);
        assert(span_views(c4.spans@) =~= seq![(repo_text_of(self.snapshot), fg(good()))]);
        let g = git_text(&self.snapshot, self.metadata_loaded);
        let c5 = line(git_summary_spans(g.as_str(), self.metadata_loaded));
        let r = TableRow { cells: vec![c0, c1, c2, c3, c4, c5], style: self.row_style(selected, mode) };
        assert(r.cells@[0] == c0 && r.cells@[1] == c1 && r.cells@[2] == c2 && r.cells@[3] == c3);
        assert(r.cells@[4] == c4 && r.cells@[5] == c5);
        r
    }
}

/// The two lines of a pane in the sidebar at `width` columns: the marker
/// and title, then `repo@branch` (and the session, when shown) on the left
/// and the git summary on the right, with spaces between.
pub open spec fn sidebar_lines_spec(
    e: PaneEntry,
    width: nat,
    selected: bool,
    mode: PaneSwitcherHighlight,
    show_arrow: bool,
    show_session: bool,
) -> (Seq<(Seq<char>, TextStyle)>, Seq<(Seq<char>, TextStyle)>, TextStyle) {
    let s = e.snapshot;
    let w: int = if width >= 1 { width as int } else { 1 };
    let title_width: int = if w - 2 >= 1 { w - 2 } else { 1 };
    let title = truncate_spec(s.pane_title@, title_width as nat);
    let right = git_text_of(s, e.metadata_loaded);
    let left_full = if show_session {
        repo_text_of(s) + "  "@ + s.session_name@
    } else {
        repo_text_of(s)
    };
    let left_width: int = if w - (2 + right.len()) >= 1 { w - (2 + right.len()) } else { 1 };
    let left = truncate_spec(left_full, left_width as nat);
    let spacer: int = if w - (2 + left.len() + right.len()) >= 0 {
        w - (2 + left.len() + right.len())
    } else {
        0
    };
    let title_style = title_style_spec(s.current, selected, mode);
    let first = seq![(marker_spec(s.current, selected, show_arrow) + " "@ + title, title_style)];
    let left_style = TextStyle { fg: title_style.fg, bg: None, bold: false, underlined: false };
    let head = seq![("  "@, plain()), (left, left_style)];
    let head = if spacer > 0 {
        head.push((Seq::new(spacer as nat, |_i: int| ' '), plain()))
    } else {
        head
    };
    let detail_style = if selected {
        match mode {
            PaneSwitcherHighlight::Solid => solid(),
            PaneSwitcherHighlight::Underline => TextStyle {
                fg: None,
                bg: None,
                bold: false,
                underlined: true,
            },
        }
    } else {
        plain()
    };
    (first, head + git_spans_spec(right, e.metadata_loaded), detail_style)
}

impl PaneEntry {
    /// The pane as two lines of the sidebar list.
    pub fn sidebar_text(
        &self,
        width: usize,
        selected: bool,
        mode: PaneSwitcherHighlight,
        show_arrow: bool,
        show_session: bool,
    ) -> (r: Vec<StyledLine>)
        ensures
            r@.len() == 2,
            ({
                let want = sidebar_lines_spec(*self, width as nat, selected, mode, show_arrow, show_session);
                &&& span_views(r@[0].spans@) == want.0
                &&& r@[0].style == plain()
                &&& span_views(r@[1].spans@) == want.1
                &&& r@[1].style == want.2
            }),
    {
        let ghost want = sidebar_lines_spec(*self, width as nat, selected, mode, show_arrow, show_session);
        let w: usize = if width >= 1 { width } else { 1 };
        let title_width: usize = if w >= 3 { w - 2 } else { 1 };
        let title = truncate(self.snapshot.pane_title.as_str(), title_width);
        let right = git_text(&self.snapshot, self.metadata_loaded);
        let right_len = chars_of(right.as_str()).len();
        let mut left_full = chars_of(repo_text(&self.snapshot).as_str());
        if show_session {
            append_str(&mut left_full, "  ");
            append_str(&mut left_full, self.snapshot.session_name.as_str());
        }
        let room = w.saturating_sub(2).saturating_sub(right_len);
        let left_width: usize = if room >= 1 { room } else { 1 };
        let left = truncate(from_chars(&left_full).as_str(), left_width);
        let left_len = chars_of(left.as_str()).len();
        let spacer = w.saturating_sub(2).saturating_sub(left_len).saturating_sub(right_len);
        let title_style = if selected {
            match mode {
                PaneSwitcherHighlight::Solid => solid(),
                PaneSwitcherHighlight::Underline => fg_bold(accent()),
            }
        } else if self.snapshot.current {
            fg_bold(good())
        } else {
            fg(pane_text())
        };
        let mut first_text = chars_of(self.marker(selected, show_arrow));
        append_str(&mut first_text, " ");
        append_str(&mut first_text, title.as_str());
        let first = line(vec![span_owned(from_chars(&first_text), title_style)]);
        let left_style = TextStyle { fg: title_style.fg, bg: None, bold: false, underlined: false };
        let mut spans = vec![span("  ", plain()), span_owned(left, left_style)];
        if spacer > 0 {
            spans.push(span_owned(from_chars(&repeat_char(' ', spacer)), plain()));
        }
        let ghost head = span_views(spans@);
        let mut git = git_summary_spans(right.as_str(), self.metadata_loaded);
        spans.append(&mut git);
        let detail_style = if selected {
            match mode {
                PaneSwitcherHighlight::Solid => solid(),
                PaneSwitcherHighlight::Underline => TextStyle {
                    fg: None,
                    bg: None,
                    bold: false,
                    underlined: true,
                },
            }
        } else {
            plain()
        };
        let detail = StyledLine { spans, style: detail_style };
        proof {
            assert(span_views(first.spans@) =~= want.0);
            if spacer > 0 {
                assert(head =~= seq![("  "@, plain()), (left@, left_style)].push(
                    (Seq::new(spacer as nat, |_i: int| ' '), plain()),
                ));
            } else {
                assert(head =~= seq![("  "@, plain()), (left@, left_style)]);
            }
            assert(span_views(detail.spans@) =~= head + git_spans_spec(right@, self.metadata_loaded));
        }
        vec![first, detail]
    }
}

// ---------------------------------------------------------------------
// Bell flags
// ---------------------------------------------------------------------

/// The bell flag tmux now reports for pane `id`: that of the first pane
/// with that id in `raws`, if any.
pub open spec fn bell_of(raws: Seq<RawPane>, id: Seq<char>) -> Option<bool>
    decreases raws.len(),
{
    if raws.len() == 0 {
        None
    } else if raws[0].pane_id@ == id {
        Some(raws[0].window_bell_flag)
    } else {
        bell_of(raws.drop_first(), id)
    }
}

/// `after` is `before` with each row's bell flag taken from `raws` where a
/// pane there has the row's id.
pub open spec fn bells_refreshed(after: Seq<PaneEntry>, before: Seq<PaneEntry>, raws: Seq<RawPane>) -> bool {
    &&& after.len() == before.len()
    &&& forall|k: int|
        0 <= k < after.len() ==> {
            let b = #[trigger] before[k];
            let a = after[k];
            &&& a.metadata_loaded == b.metadata_loaded
            &&& same_snapshot(
                a.snapshot,
                PaneSnapshot {
                    window_bell_flag: match bell_of(raws, b.snapshot.pane_id@) {
                        Some(f) => f,
                        None => b.snapshot.window_bell_flag,
                    },
                    ..b.snapshot
                },
            )
        }
}

/// Whether refreshing changes some row's flag.
pub open spec fn bells_changed(before: Seq<PaneEntry>, raws: Seq<RawPane>) -> bool {
    exists|k: int| 0 <= k < before.len() && bell_differs(raws, #[trigger] before[k])
}

/// Whether tmux reports another bell flag for the row's pane.
pub open spec fn bell_differs(raws: Seq<RawPane>, e: PaneEntry) -> bool {
    match bell_of(raws, e.snapshot.pane_id@) {
        Some(f) => f != e.snapshot.window_bell_flag,
        None => false,
    }
}

fn find_bell(raws: &Vec<RawPane>, id: &str) -> (r: Option<bool>)
    ensures
        r == bell_of(raws@, id@),
{
    let mut i: usize = 0;
    proof {
        assert(raws@.skip(0) =~= raws@);
    }
    while i < raws.len()
        invariant
            i <= raws@.len(),
            bell_of(raws@, id@) == bell_of(raws@.skip(i as int), id@),
        decreases raws@.len() - i,
    {
        proof {
            assert(raws@.skip(i as int)[0] == raws@[i as int]);
            assert(raws@.skip(i as int).drop_first() =~= raws@.skip(i + 1));
        }
        if crate::text::chars_eq(&chars_of(raws[i].pane_id.as_str()), &chars_of(id)) {
            return Some(raws[i].window_bell_flag);
        }
        i += 1;
    }
    proof {
        assert(raws@.skip(i as int).len() == 0);
    }
    None
}

fn refresh_bells(rows: &mut Vec<PaneEntry>, raws: &Vec<RawPane>) -> (changed: bool)
    ensures
        bells_refreshed(final(rows)@, old(rows)@, raws@),
        changed == bells_changed(old(rows)@, raws@),
{
    let ghost before = rows@;
    let mut changed = false;
    let mut i: usize = 0;
    while i < rows.len()
        invariant
            before == old(rows)@,
            rows@.len() == before.len(),
            i <= rows@.len(),
            forall|k: int| i <= k < rows@.len() ==> #[trigger] rows@[k] == before[k],
            bells_refreshed(rows@.take(i as int), before.take(i as int), raws@),
            changed == exists|k: int| 0 <= k < i && bell_differs(raws@, #[trigger] before[k]),
        decreases rows@.len() - i,
    {
        let found = find_bell(raws, rows[i].snapshot.pane_id.as_str());
        match found {
            Some(f) => {
                if f != rows[i].snapshot.window_bell_flag {
                    changed = true;
                }
                let mut e = rows[i].duplicate();
                proof {
                    assert(same_entry(e, before[i as int]));
                }
                e.snapshot.window_bell_flag = f;
                rows.set(i, e);
            },
            None => {},
        }
        proof {
            let bt = before.take(i + 1);
            let rt = rows@.take(i + 1);
            assert forall|k: int| 0 <= k < i + 1 implies {
                let b = #[trigger] bt[k];
                let a = rt[k];
                &&& a.metadata_loaded == b.metadata_loaded
                &&& same_snapshot(
                    a.snapshot,
                    PaneSnapshot {
                        window_bell_flag: match bell_of(raws@, b.snapshot.pane_id@) {
                            Some(f) => f,
                            None => b.snapshot.window_bell_flag,
                        },
                        ..b.snapshot
                    },
                )
            } by {
                if k < i {
                    assert(bt[k] == before.take(i as int)[k]);
                    assert(rt[k] == rows@.take(i as int)[k]);
                } else {
                    assert(bt[k] == before[i as int]);
                    assert(rt[k] == rows@[i as int]);
                }
            }
            assert(changed == exists|k: int| 0 <= k < i + 1 && bell_differs(raws@, #[trigger] before[k])) by {
                if changed && !(exists|k: int| 0 <= k < i && bell_differs(raws@, #[trigger] before[k])) {
                    assert(bell_differs(raws@, before[i as int]));
                }
                if exists|k: int| 0 <= k < i + 1 && bell_differs(raws@, #[trigger] before[k]) {
                    let k = choose|k: int| 0 <= k < i + 1 && bell_differs(raws@, #[trigger] before[k]);
                    if k == i {
                        assert(bell_differs(raws@, before[i as int]));
                    }
                }
            }
        }
        i += 1;
    }
    proof {
        assert(rows@.take(i as int) =~= rows@);
        assert(before.take(i as int) =~= before);
    }
    changed
}

impl PaneSwitcherState {
    /// Takes the window bell flags tmux now reports for the panes shown,
    /// and tells whether any changed.
    pub fn refresh_window_bell_flags(&mut self, raw_panes: &Vec<RawPane>) -> (r: bool)
        ensures
            bells_refreshed(final(self).all_rows@, old(self).all_rows@, raw_panes@),
            bells_refreshed(final(self).rows@, old(self).rows@, raw_panes@),
            r == (bells_changed(old(self).all_rows@, raw_panes@) || bells_changed(
                old(self).rows@,
                raw_panes@,
            )),
            final(self).selected == old(self).selected,
            final(self).loaded_count == old(self).loaded_count,
            final(self).current_session_only == old(self).current_session_only,
            final(self).current_session_name == old(self).current_session_name,
    {
        let a = refresh_bells(&mut self.all_rows, raw_panes);
        let b = refresh_bells(&mut self.rows, raw_panes);
        a || b
    }
}

} // verus!
