//! The data behind the task overview: tasks newest first, the tasks in
//! scope, counts by state, mode and runtime, and the busiest repositories
//! and runtimes.
use crate::config::TaskRuntime;
use crate::model::{same_task, Moment, OverviewScope, TaskMode, TaskRecord, TaskState};
use crate::order::{
    is_index_perm, lemma_index_perm_onto, lemma_order_chars_antisym,
    lemma_order_chars_trans, lemma_order_chars_zero, order_chars, order_text, stable_order,
    stably_sorted, SortKey,
};
use crate::panes_support::{runtime_label, runtime_name};
use crate::overview_tui::{filter_matches, filter_of_scope, TasksFilter};
use crate::text::{chars_eq, chars_of};
use vstd::prelude::*;

verus! {

// ---------------------------------------------------------------------
// Counting tasks
// ---------------------------------------------------------------------

pub open spec fn count_state(ts: Seq<TaskRecord>, s: TaskState) -> nat
    decreases ts.len(),
{
    if ts.len() == 0 {
        0
    } else {
        count_state(ts.drop_last(), s) + if ts.last().state == s {
            1nat
        } else {
            0nat
        }
    }
}

pub open spec fn count_mode(ts: Seq<TaskRecord>, m: TaskMode) -> nat
    decreases ts.len(),
{
    if ts.len() == 0 {
        0
    } else {
        count_mode(ts.drop_last(), m) + if ts.last().mode == m {
            1nat
        } else {
            0nat
        }
    }
}

pub open spec fn count_runtime(ts: Seq<TaskRecord>, r: TaskRuntime) -> nat
    decreases ts.len(),
{
    if ts.len() == 0 {
        0
    } else {
        count_runtime(ts.drop_last(), r) + if ts.last().runtime == r {
            1nat
        } else {
            0nat
        }
    }
}

pub open spec fn count_with_session(ts: Seq<TaskRecord>) -> nat
    decreases ts.len(),
{
    if ts.len() == 0 {
        0
    } else {
        count_with_session(ts.drop_last()) + if ts.last().session is Some {
            1nat
        } else {
            0nat
        }
    }
}

/// Counts of a list of tasks by state, mode, runtime and session.
#[derive(Debug, Clone, Copy, PartialEq, Eq, Structural)]
pub struct TaskSummary {
    pub total: usize,
    pub queued: usize,
    pub dispatching: usize,
    pub running: usize,
    pub waiting_input: usize,
    pub succeeded: usize,
    pub failed: usize,
    pub canceled: usize,
    pub manual: usize,
    pub auto: usize,
    pub headless: usize,
    pub mirrored: usize,
    pub tui: usize,
    pub with_session: usize,
}

impl Default for TaskSummary {
    /// No tasks counted.
    fn default() -> (r: Self)
        ensures
            summarizes(r, Seq::empty()),
    {
        TaskSummary {
            total: 0,
            queued: 0,
            dispatching: 0,
            running: 0,
            waiting_input: 0,
            succeeded: 0,
            failed: 0,
            canceled: 0,
            manual: 0,
            auto: 0,
            headless: 0,
            mirrored: 0,
            tui: 0,
            with_session: 0,
        }
    }
}

/// `r` counts the tasks `ts`.
pub open spec fn summarizes(r: TaskSummary, ts: Seq<TaskRecord>) -> bool {
    &&& r.total == ts.len()
    &&& r.queued == count_state(ts, TaskState::Queued)
    &&& r.dispatching == count_state(ts, TaskState::Dispatching)
    &&& r.running == count_state(ts, TaskState::Running)
    &&& r.waiting_input == count_state(ts, TaskState::WaitingInput)
    &&& r.succeeded == count_state(ts, TaskState::Succeeded)
    &&& r.failed == count_state(ts, TaskState::Failed)
    &&& r.canceled == count_state(ts, TaskState::Canceled)
    &&& r.manual == count_mode(ts, TaskMode::Manual)
    &&& r.auto == count_mode(ts, TaskMode::Auto)
    &&& r.headless == count_runtime(ts, TaskRuntime::Headless)
    &&& r.mirrored == count_runtime(ts, TaskRuntime::Mirrored)
    &&& r.tui == count_runtime(ts, TaskRuntime::Tui)
    &&& r.with_session == count_with_session(ts)
}

/// Every task has one state, one mode and one runtime, so each kind of
/// count adds up to the number of tasks.
pub proof fn lemma_counts_partition(ts: Seq<TaskRecord>)
    ensures
        count_state(ts, TaskState::Queued) + count_state(ts, TaskState::Dispatching) + count_state(
            ts,
            TaskState::Running,
        ) + count_state(ts, TaskState::WaitingInput) + count_state(ts, TaskState::Succeeded)
            + count_state(ts, TaskState::Failed) + count_state(ts, TaskState::Canceled) == ts.len(),
        count_mode(ts, TaskMode::Manual) + count_mode(ts, TaskMode::Auto) == ts.len(),
        count_runtime(ts, TaskRuntime::Headless) + count_runtime(ts, TaskRuntime::Mirrored)
            + count_runtime(ts, TaskRuntime::Tui) == ts.len(),
        count_with_session(ts) <= ts.len(),
    decreases ts.len(),
{
    if ts.len() > 0 {
        lemma_counts_partition(ts.drop_last());
    }
}

pub open spec fn active_count(s: TaskSummary) -> int {
    s.queued + s.dispatching + s.running + s.waiting_input
}

pub open spec fn terminal_count(s: TaskSummary) -> int {
    s.succeeded + s.failed + s.canceled
}

/// In the counts of a list of tasks, the active and the finished tasks
/// together are all of them, as are the manual and automatic ones, and the
/// tasks of the three runtimes.
pub proof fn lemma_summary_totals(r: TaskSummary, ts: Seq<TaskRecord>)
    requires
        summarizes(r, ts),
    ensures
        active_count(r) + terminal_count(r) == r.total,
        r.manual + r.auto == r.total,
        r.headless + r.mirrored + r.tui == r.total,
        r.with_session <= r.total,
{
    lemma_counts_partition(ts);
}

/// `after` is `before` with one more task `t` counted, total aside.
pub open spec fn counted_one_more(after: TaskSummary, before: TaskSummary, t: TaskRecord) -> bool {
    &&& after.total == before.total
    &&& after.queued == before.queued + if t.state == TaskState::Queued { 1int } else { 0int }
    &&& after.dispatching == before.dispatching + if t.state == TaskState::Dispatching {
        1int
    } else {
        0int
    }
    &&& after.running == before.running + if t.state == TaskState::Running { 1int } else { 0int }
    &&& after.waiting_input == before.waiting_input + if t.state == TaskState::WaitingInput {
        1int
    } else {
        0int
    }
    &&& after.succeeded == before.succeeded + if t.state == TaskState::Succeeded {
        1int
    } else {
        0int
    }
    &&& after.failed == before.failed + if t.state == TaskState::Failed { 1int } else { 0int }
    &&& after.canceled == before.canceled + if t.state == TaskState::Canceled {
        1int
    } else {
        0int
    }
    &&& after.manual == before.manual + if t.mode == TaskMode::Manual { 1int } else { 0int }
    &&& after.auto == before.auto + if t.mode == TaskMode::Auto { 1int } else { 0int }
    &&& after.headless == before.headless + if t.runtime == TaskRuntime::Headless {
        1int
    } else {
        0int
    }
    &&& after.mirrored == before.mirrored + if t.runtime == TaskRuntime::Mirrored {
        1int
    } else {
        0int
    }
    &&& after.tui == before.tui + if t.runtime == TaskRuntime::Tui { 1int } else { 0int }
    &&& after.with_session == before.with_session + if t.session is Some { 1int } else { 0int }
}

/// Every count of `s` is at most `bound`.
pub open spec fn counts_below(s: TaskSummary, bound: int) -> bool {
    &&& s.queued <= bound
    &&& s.dispatching <= bound
    &&& s.running <= bound
    &&& s.waiting_input <= bound
    &&& s.succeeded <= bound
    &&& s.failed <= bound
    &&& s.canceled <= bound
    &&& s.manual <= bound
    &&& s.auto <= bound
    &&& s.headless <= bound
    &&& s.mirrored <= bound
    &&& s.tui <= bound
    &&& s.with_session <= bound
}

fn count_one(r: &mut TaskSummary, t: &TaskRecord)
    requires
        counts_below(*old(r), usize::MAX - 1),
    ensures
        counted_one_more(*final(r), *old(r), *t),
{
    match t.state {
        TaskState::Queued => r.queued += 1,
        TaskState::Dispatching => r.dispatching += 1,
        TaskState::Running => r.running += 1,
        TaskState::WaitingInput => r.waiting_input += 1,
        TaskState::Succeeded => r.succeeded += 1,
        TaskState::Failed => r.failed += 1,
        TaskState::Canceled => r.canceled += 1,
    }
    if t.session.is_some() {
        r.with_session += 1;
    }
    match t.mode {
        TaskMode::Manual => r.manual += 1,
        TaskMode::Auto => r.auto += 1,
    }
    match t.runtime {
        TaskRuntime::Headless => r.headless += 1,
        TaskRuntime::Mirrored => r.mirrored += 1,
        TaskRuntime::Tui => r.tui += 1,
    }
}

/// `r` counts `ts` in every count but the total.
pub open spec fn counts_of(r: TaskSummary, ts: Seq<TaskRecord>) -> bool {
    &&& r.queued == count_state(ts, TaskState::Queued)
    &&& r.dispatching == count_state(ts, TaskState::Dispatching)
    &&& r.running == count_state(ts, TaskState::Running)
    &&& r.waiting_input == count_state(ts, TaskState::WaitingInput)
    &&& r.succeeded == count_state(ts, TaskState::Succeeded)
    &&& r.failed == count_state(ts, TaskState::Failed)
    &&& r.canceled == count_state(ts, TaskState::Canceled)
    &&& r.manual == count_mode(ts, TaskMode::Manual)
    &&& r.auto == count_mode(ts, TaskMode::Auto)
    &&& r.headless == count_runtime(ts, TaskRuntime::Headless)
    &&& r.mirrored == count_runtime(ts, TaskRuntime::Mirrored)
    &&& r.tui == count_runtime(ts, TaskRuntime::Tui)
    &&& r.with_session == count_with_session(ts)
}

proof fn lemma_counts_step(before: TaskSummary, after: TaskSummary, ts: Seq<TaskRecord>)
    requires
        ts.len() > 0,
        counts_of(before, ts.drop_last()),
        counted_one_more(after, before, ts.last()),
    ensures
        counts_of(after, ts),
{
}

proof fn lemma_counts_bound(r: TaskSummary, ts: Seq<TaskRecord>)
    requires
        counts_of(r, ts),
    ensures
        counts_below(r, ts.len() as int),
{
    lemma_counts_partition(ts);
}

impl TaskSummary {
    pub fn from(tasks: &[TaskRecord]) -> (r: Self)
        ensures
            summarizes(r, tasks@),
    {
        let mut r = TaskSummary {
            total: tasks.len(),
            queued: 0,
            dispatching: 0,
            running: 0,
            waiting_input: 0,
            succeeded: 0,
            failed: 0,
            canceled: 0,
            manual: 0,
            auto: 0,
            headless: 0,
            mirrored: 0,
            tui: 0,
            with_session: 0,
        };
        let ghost ts = tasks@;
        let mut i: usize = 0;
        proof {
            assert(ts.take(0) =~= Seq::<TaskRecord>::empty());
        }
        while i < tasks.len()
            invariant
                ts == tasks@,
                i <= ts.len(),
                counts_of(r, ts.take(i as int)),
                r.total == ts.len(),
            decreases ts.len() - i,
        {
            let ghost before = r;
            proof {
                lemma_counts_bound(r, ts.take(i as int));
            }
            count_one(&mut r, &tasks[i]);
            proof {
                assert(ts.take(i + 1).drop_last() =~= ts.take(i as int));
                assert(ts.take(i + 1).last() == ts[i as int]);
                lemma_counts_step(before, r, ts.take(i + 1));
            }
            i += 1;
        }
        proof {
            assert(ts.take(ts.len() as int) =~= ts);
        }
        r
    }

    /// Tasks that have not finished.
    pub fn active(&self) -> (r: usize)
        requires
            active_count(*self) <= usize::MAX,
        ensures
            r == active_count(*self),
    {
        self.queued + self.dispatching + self.running + self.waiting_input
    }

    /// Tasks that succeeded, failed or were canceled.
    pub fn terminal(&self) -> (r: usize)
        requires
            terminal_count(*self) <= usize::MAX,
        ensures
            r == terminal_count(*self),
    {
        self.succeeded + self.failed + self.canceled
    }
}

// ---------------------------------------------------------------------
// Busiest labels
// ---------------------------------------------------------------------

/// How often `k` occurs in `keys`.
pub open spec fn occurrences(keys: Seq<Seq<char>>, k: Seq<char>) -> nat
    decreases keys.len(),
{
    if keys.len() == 0 {
        0
    } else {
        occurrences(keys.drop_last(), k) + if keys.last() == k {
            1nat
        } else {
            0nat
        }
    }
}

/// Whether count `a` is listed before count `b`: higher counts first,
/// equal counts by label.
pub open spec fn ranks_before(a: (Seq<char>, nat), b: (Seq<char>, nat)) -> bool {
    a.1 > b.1 || (a.1 == b.1 && order_chars(a.0, b.0) < 0)
}

pub open spec fn pair_views(r: Seq<(String, usize)>) -> Seq<(Seq<char>, nat)> {
    r.map_values(|p: (String, usize)| (p.0@, p.1 as nat))
}

/// `r` lists, with their counts, the `limit` most frequent labels of
/// `keys` (all of them when there are fewer), most frequent first and
/// equal counts by label.
pub open spec fn top_counts(r: Seq<(Seq<char>, nat)>, keys: Seq<Seq<char>>, limit: nat) -> bool {
    &&& r.len() <= limit
    &&& forall|i: int|
        0 <= i < r.len() ==> keys.contains(#[trigger] r[i].0) && r[i].1 == occurrences(keys, r[i].0)
    &&& forall|i: int, j: int| #![trigger r[i], r[j]] 0 <= i < j < r.len() ==> ranks_before(r[i], r[j])
    &&& forall|k: Seq<char>|
        #[trigger] keys.contains(k) && (forall|i: int| 0 <= i < r.len() ==> r[i].0 != k) ==> {
            &&& r.len() == limit
            &&& limit > 0 ==> ranks_before(r[limit - 1], (k, occurrences(keys, k)))
        }
}

proof fn lemma_occurrences_absent(keys: Seq<Seq<char>>, k: Seq<char>)
    requires
        !keys.contains(k),
    ensures
        occurrences(keys, k) == 0,
    decreases keys.len(),
{
    if keys.len() > 0 {
        assert(!keys.drop_last().contains(k)) by {
            if keys.drop_last().contains(k) {
                let i = choose|i: int| 0 <= i < keys.drop_last().len() && keys.drop_last()[i] == k;
                assert(keys[i] == k);
            }
        }
        lemma_occurrences_absent(keys.drop_last(), k);
    }
}

proof fn lemma_occurrences_bound(keys: Seq<Seq<char>>, k: Seq<char>)
    ensures
        occurrences(keys, k) <= keys.len(),
    decreases keys.len(),
{
    if keys.len() > 0 {
        lemma_occurrences_bound(keys.drop_last(), k);
    }
}

/// A label and how often it occurs.
#[derive(Debug, Clone)]
pub struct LabelCount {
    pub label: String,
    pub count: usize,
}

impl SortKey for LabelCount {
    open spec fn key_le(self, other: Self) -> bool {
        self.count > other.count || (self.count == other.count && order_chars(
            self.label@,
            other.label@,
        ) <= 0)
    }

    proof fn lemma_key_le_total(a: Self, b: Self) {
        lemma_order_chars_antisym(a.label@, b.label@);
    }

    proof fn lemma_key_le_trans(a: Self, b: Self, c: Self) {
        if a.count == b.count && b.count == c.count {
            lemma_order_chars_trans(a.label@, b.label@, c.label@);
        }
    }

    fn le(&self, other: &Self) -> (r: bool) {
        if self.count != other.count {
            return self.count > other.count;
        }
        order_text(&chars_of(self.label.as_str()), &chars_of(other.label.as_str())) <= 0
    }
}

fn same_text(a: &str, b: &str) -> (r: bool)
    ensures
        r == (a@ == b@),
{
    chars_eq(&chars_of(a), &chars_of(b))
}

/// The distinct labels of `keys` with how often each occurs, in order of
/// first occurrence.
fn tally(keys: &Vec<String>) -> (r: Vec<LabelCount>)
    ensures
        forall|j: int|
            0 <= j < r@.len() ==> crate::config::views(keys@).contains(#[trigger] r@[j].label@)
                && r@[j].count == occurrences(crate::config::views(keys@), r@[j].label@),
        forall|j: int, l: int|
            #![trigger r@[j], r@[l]]
            0 <= j < r@.len() && 0 <= l < r@.len() && j != l ==> r@[j].label@ != r@[l].label@,
        forall|k: Seq<char>|
            #[trigger] crate::config::views(keys@).contains(k) ==> exists|j: int|
                0 <= j < r@.len() && r@[j].label@ == k,
{
    let ghost kv = crate::config::views(keys@);
    let mut out: Vec<LabelCount> = Vec::new();
    let ghost mut slot: Seq<int> = Seq::empty();
    let mut i: usize = 0;
    while i < keys.len()
        invariant
            kv == crate::config::views(keys@),
            i <= keys@.len(),
            slot.len() == i,
            forall|m: int|
                0 <= m < i ==> 0 <= #[trigger] slot[m] < out@.len() && out@[slot[m]].label@ == kv[m],
            forall|j: int|
                0 <= j < out@.len() ==> kv.take(i as int).contains(#[trigger] out@[j].label@)
                    && out@[j].count == occurrences(kv.take(i as int), out@[j].label@),
            forall|j: int, l: int|
                #![trigger out@[j], out@[l]]
                0 <= j < out@.len() && 0 <= l < out@.len() && j != l ==> out@[j].label@
                    != out@[l].label@,
        decreases keys@.len() - i,
    {
        let ghost prev = kv.take(i as int);
        let ghost next = kv.take(i + 1);
        proof {
            assert(next.drop_last() =~= prev);
            assert(next.last() == kv[i as int]);
            assert(kv[i as int] == keys@[i as int]@);
        }
        let mut j: usize = 0;
        while j < out.len()
            invariant
                i < keys@.len(),
                0 <= j <= out@.len(),
                forall|q: int| 0 <= q < j ==> (#[trigger] out@[q]).label@ != keys@[i as int]@,
            ensures
                0 <= j <= out@.len(),
                forall|q: int| 0 <= q < j ==> (#[trigger] out@[q]).label@ != keys@[i as int]@,
                j < out@.len() ==> out@[j as int].label@ == keys@[i as int]@,
            decreases out@.len() - j,
        {
            if same_text(out[j].label.as_str(), keys[i].as_str()) {
                break;
            }
            j += 1;
        }
        let ghost old_out = out@;
        if j < out.len() {
            proof {
                lemma_occurrences_bound(prev, old_out[j as int].label@);
            }
            let c = out[j].count + 1;
            let l = out[j].label.clone();
            out.set(j, LabelCount { label: l, count: c });
            proof {
                slot = slot.push(j as int);
            }
        } else {
            proof {
                assert(!prev.contains(kv[i as int])) by {
                    if prev.contains(kv[i as int]) {
                        let m = choose|m: int| 0 <= m < prev.len() && prev[m] == kv[i as int];
                        assert(out@[slot[m]].label@ == kv[m]);
                    }
                }
                lemma_occurrences_absent(prev, kv[i as int]);
                slot = slot.push(out@.len() as int);
            }
            out.push(LabelCount { label: keys[i].clone(), count: 1 });
        }
        proof {
            assert forall|j2: int| 0 <= j2 < out@.len() implies next.contains(
                #[trigger] out@[j2].label@,
            ) && out@[j2].count == occurrences(next, out@[j2].label@) by {
                let l = out@[j2].label@;
                if j2 < old_out.len() {
                    assert(l == old_out[j2].label@);
                    assert(prev.contains(l));
                    let m = choose|m: int| 0 <= m < prev.len() && prev[m] == l;
                    assert(next[m] == prev[m]);
                    if l == kv[i as int] {
                        assert(j < old_out.len());
                        assert(old_out[j as int].label@ == kv[i as int]);
                        assert(j2 == j);
                    }
                } else {
                    assert(next[i as int] == kv[i as int]);
                }
            }
            assert forall|m: int| 0 <= m < i + 1 implies 0 <= #[trigger] slot[m] < out@.len()
                && out@[slot[m]].label@ == kv[m] by {
                if m < i {
                    assert(old_out[slot[m]].label@ == out@[slot[m]].label@);
                }
            }
        }
        i += 1;
    }
    proof {
        assert(kv.take(kv.len() as int) =~= kv);
        assert forall|k: Seq<char>| #[trigger] kv.contains(k) implies exists|j: int|
            0 <= j < out@.len() && out@[j].label@ == k by {
            let m = choose|m: int| 0 <= m < kv.len() && kv[m] == k;
            assert(out@[slot[m]].label@ == kv[m]);
        }
    }
    out
}

/// The `limit` most frequent of `keys` with their counts, most frequent
/// first and equal counts by label.
pub fn count_by(keys: &Vec<String>, limit: usize) -> (r: Vec<(String, usize)>)
    ensures
        top_counts(pair_views(r@), crate::config::views(keys@), limit as nat),
{
    let ghost kv = crate::config::views(keys@);
    let entries = tally(keys);
    let idx = stable_order(&entries);
    let n = entries.len();
    let m = if limit < n {
        limit
    } else {
        n
    };
    let mut out: Vec<(String, usize)> = Vec::new();
    let mut k: usize = 0;
    while k < m
        invariant
            m <= n == entries@.len(),
            is_index_perm(idx@, n as nat),
            k <= m,
            out@.len() == k,
            forall|q: int|
                0 <= q < k ==> (#[trigger] out@[q]).0@ == entries@[idx@[q] as int].label@
                    && out@[q].1 == entries@[idx@[q] as int].count,
        decreases m - k,
    {
        let e = &entries[idx[k]];
        out.push((e.label.clone(), e.count));
        k += 1;
    }
    proof {
        let pv = pair_views(out@);
        assert forall|q: int| 0 <= q < pv.len() implies pv[q] == (
            entries@[idx@[q] as int].label@,
            entries@[idx@[q] as int].count as nat,
        ) by {}
        assert forall|q: int| 0 <= q < pv.len() implies kv.contains(#[trigger] pv[q].0) && pv[q].1
            == occurrences(kv, pv[q].0) by {
            assert(0 <= idx@[q] < n);
        }
        assert forall|a: int, b: int| #![trigger pv[a], pv[b]] 0 <= a < b < pv.len() implies ranks_before(
            pv[a],
            pv[b],
        ) by {
            let ea = entries@[idx@[a] as int];
            let eb = entries@[idx@[b] as int];
            assert(LabelCount::key_le(ea, eb));
            assert(idx@[a] != idx@[b]);
            lemma_order_chars_zero(ea.label@, eb.label@);
        }
        assert forall|x: Seq<char>|
            #[trigger] kv.contains(x) && (forall|i: int| 0 <= i < pv.len() ==> pv[i].0 != x) implies {
            &&& pv.len() == limit
            &&& limit > 0 ==> ranks_before(pv[limit - 1], (x, occurrences(kv, x)))
        } by {
            let j = choose|j: int| 0 <= j < entries@.len() && entries@[j].label@ == x;
            lemma_index_perm_onto(idx@, n as nat, j);
            let p = choose|p: int| 0 <= p < idx@.len() && idx@[p] == j;
            if p < m {
                assert(pv[p].0 == x);
            }
            assert(m == limit);
            if limit > 0 {
                let ea = entries@[idx@[limit - 1] as int];
                assert(LabelCount::key_le(ea, entries@[j]));
                assert(idx@[limit - 1] != idx@[p]);
                lemma_order_chars_zero(ea.label@, x);
            }
        }
    }
    out
}

// ---------------------------------------------------------------------
// The dashboard
// ---------------------------------------------------------------------

/// The positions of the tasks that `f` shows, in order.
pub open spec fn filter_positions(ts: Seq<TaskRecord>, f: TasksFilter) -> Seq<int>
    decreases ts.len(),
{
    if ts.len() == 0 {
        Seq::empty()
    } else {
        let p = filter_positions(ts.drop_last(), f);
        if filter_matches(f, ts.last().state) {
            p.push(ts.len() - 1)
        } else {
            p
        }
    }
}

pub proof fn lemma_filter_positions(ts: Seq<TaskRecord>, f: TasksFilter)
    ensures
        forall|k: int|
            0 <= k < filter_positions(ts, f).len() ==> 0 <= #[trigger] filter_positions(ts, f)[k]
                < ts.len() && filter_matches(f, ts[filter_positions(ts, f)[k]].state),
        forall|a: int, b: int|
            #![trigger filter_positions(ts, f)[a], filter_positions(ts, f)[b]]
            0 <= a < b < filter_positions(ts, f).len() ==> filter_positions(ts, f)[a]
                < filter_positions(ts, f)[b],
    decreases ts.len(),
{
    if ts.len() > 0 {
        lemma_filter_positions(ts.drop_last(), f);
    }
}

/// `r` holds, in order, exactly the tasks of `ts` that `f` shows.
pub open spec fn filtered(r: Seq<TaskRecord>, ts: Seq<TaskRecord>, f: TasksFilter) -> bool {
    let pos = filter_positions(ts, f);
    r.len() == pos.len() && forall|k: int| 0 <= k < r.len() ==> same_task(#[trigger] r[k], ts[pos[k]])
}

/// The time key of a task: when it was updated, then created, each as
/// seconds and nanoseconds. In this order instants compare as chrono
/// compares them.
pub open spec fn time_key(t: TaskRecord) -> (i64, u32, i64, u32) {
    (t.updated_at.spec_secs(), t.updated_at.spec_nanos(), t.created_at.spec_secs(), t.created_at.spec_nanos())
}

pub open spec fn time_keys(ts: Seq<TaskRecord>) -> Seq<(i64, u32, i64, u32)> {
    ts.map_values(|t: TaskRecord| time_key(t))
}

impl SortKey for (i64, u32, i64, u32) {
    open spec fn key_le(self, other: Self) -> bool {
        self.0 < other.0 || (self.0 == other.0 && (self.1 < other.1 || (self.1 == other.1 && (self.2
            < other.2 || (self.2 == other.2 && self.3 <= other.3)))))
    }

    proof fn lemma_key_le_total(a: Self, b: Self) {
    }

    proof fn lemma_key_le_trans(a: Self, b: Self, c: Self) {
    }

    fn le(&self, other: &Self) -> (r: bool) {
        self.0 < other.0 || (self.0 == other.0 && (self.1 < other.1 || (self.1 == other.1 && (self.2
            < other.2 || (self.2 == other.2 && self.3 <= other.3)))))
    }
}

/// `r` is `ts` newest first: sorted stably by update and creation time
/// (the order `idx`), then reversed.
pub open spec fn newest_first(r: Seq<TaskRecord>, ts: Seq<TaskRecord>, idx: Seq<usize>) -> bool {
    &&& is_index_perm(idx, ts.len())
    &&& stably_sorted(time_keys(ts), idx)
    &&& r.len() == ts.len()
    &&& forall|k: int| 0 <= k < r.len() ==> same_task(#[trigger] r[k], ts[idx[r.len() - 1 - k] as int])
}

pub open spec fn repos(ts: Seq<TaskRecord>) -> Seq<Seq<char>> {
    ts.map_values(|t: TaskRecord| t.repo@)
}

pub open spec fn runtime_names(ts: Seq<TaskRecord>) -> Seq<Seq<char>> {
    ts.map_values(|t: TaskRecord| runtime_name(t.runtime))
}

/// What the overview shows: all tasks newest first, those in scope, their
/// counts, and the five busiest repositories and three busiest runtimes.
#[derive(Debug)]
pub struct DashboardData {
    /// When the data was read.
    pub generated_at: Moment,
    pub scope: OverviewScope,
    pub visible_tasks: Vec<TaskRecord>,
    pub all_tasks: Vec<TaskRecord>,
    pub visible_summary: TaskSummary,
    pub all_summary: TaskSummary,
    pub repo_counts: Vec<(String, usize)>,
    pub runtime_counts: Vec<(String, usize)>,
}

/// `d` is the dashboard of the tasks `ts` in `scope`, read at `at`.
pub open spec fn dashboard_of(d: DashboardData, ts: Seq<TaskRecord>, scope: OverviewScope, at: Moment) -> bool {
    &&& exists|idx: Seq<usize>| #[trigger] newest_first(d.all_tasks@, ts, idx)
    &&& filtered(d.visible_tasks@, d.all_tasks@, filter_of_scope(scope))
    &&& summarizes(d.visible_summary, d.visible_tasks@)
    &&& summarizes(d.all_summary, d.all_tasks@)
    &&& top_counts(pair_views(d.repo_counts@), repos(d.all_tasks@), 5)
    &&& top_counts(pair_views(d.runtime_counts@), runtime_names(d.all_tasks@), 3)
    &&& d.scope == scope
    &&& d.generated_at == at
}

fn matching_tasks(ts: &Vec<TaskRecord>, f: TasksFilter) -> (r: Vec<TaskRecord>)
    ensures
        filtered(r@, ts@, f),
{
    let mut out: Vec<TaskRecord> = Vec::new();
    let mut i: usize = 0;
    while i < ts.len()
        invariant
            i <= ts@.len(),
            filtered(out@, ts@.take(i as int), f),
        decreases ts@.len() - i,
    {
        proof {
            assert(ts@.take(i + 1).drop_last() =~= ts@.take(i as int));
            assert(ts@.take(i + 1).last() == ts@[i as int]);
            lemma_filter_positions(ts@.take(i as int), f);
        }
        if f.matches(&ts[i].state) {
            out.push(ts[i].duplicate());
        }
        proof {
            let pi = filter_positions(ts@.take(i as int), f);
            let pn = filter_positions(ts@.take(i + 1), f);
            assert forall|k: int| 0 <= k < out@.len() implies same_task(
                #[trigger] out@[k],
                ts@.take(i + 1)[pn[k]],
            ) by {
                if k < pi.len() {
                    assert(pn[k] == pi[k]);
                    assert(0 <= pi[k] < i);
                    assert(ts@.take(i + 1)[pi[k]] == ts@.take(i as int)[pi[k]]);
                }
            }
        }
        i += 1;
    }
    proof {
        assert(ts@.take(ts@.len() as int) =~= ts@);
    }
    out
}

impl DashboardData {
    /// The dashboard of `tasks` in `scope`, read at `generated_at`.
    pub fn from_tasks(tasks: Vec<TaskRecord>, scope: OverviewScope, generated_at: Moment) -> (r: Self)
        ensures
            dashboard_of(r, tasks@, scope, generated_at),
    {
        let n = tasks.len();
        let mut keys: Vec<(i64, u32, i64, u32)> = Vec::new();
        for i in 0..n
            invariant
                n == tasks@.len(),
                keys@ == time_keys(tasks@).take(i as int),
        {
            let t = &tasks[i];
            keys.push((t.updated_at.secs(), t.updated_at.nanos(), t.created_at.secs(), t.created_at.nanos()));
            proof {
                assert(keys@ =~= time_keys(tasks@).take(i + 1));
            }
        }
        proof {
            assert(keys@ =~= time_keys(tasks@));
        }
        let idx = stable_order(&keys);
        let mut all: Vec<TaskRecord> = Vec::new();
        let mut k: usize = 0;
        while k < n
            invariant
                n == tasks@.len() == idx@.len(),
                is_index_perm(idx@, n as nat),
                k <= n,
                all@.len() == k,
                forall|q: int| 0 <= q < k ==> same_task(#[trigger] all@[q], tasks@[idx@[n - 1 - q] as int]),
            decreases n - k,
        {
            all.push(tasks[idx[n - 1 - k]].duplicate());
            k += 1;
        }
        assert(newest_first(all@, tasks@, idx@));
        let filter = TasksFilter::from_scope(scope);
        let visible = matching_tasks(&all, filter);
        let visible_summary = TaskSummary::from(visible.as_slice());
        let all_summary = TaskSummary::from(all.as_slice());
        let mut repo_keys: Vec<String> = Vec::new();
        let mut runtime_keys: Vec<String> = Vec::new();
        proof {
            assert(crate::config::views(repo_keys@) =~= repos(all@).take(0));
            assert(crate::config::views(runtime_keys@) =~= runtime_names(all@).take(0));
        }
        for i in 0..n
            invariant
                n == all@.len(),
                crate::config::views(repo_keys@) == repos(all@).take(i as int),
                crate::config::views(runtime_keys@) == runtime_names(all@).take(i as int),
        {
            let ghost old_repo = repo_keys@;
            let ghost old_runtime = runtime_keys@;
            let repo = all[i].repo.clone();
            let runtime = String::from_str(runtime_label(&all[i]));
            repo_keys.push(repo);
            runtime_keys.push(runtime);
            proof {
                assert(repo_keys@ == old_repo.push(repo));
                assert(runtime_keys@ == old_runtime.push(runtime));
                assert(crate::config::views(repo_keys@) =~= crate::config::views(old_repo).push(repo@));
                assert(crate::config::views(runtime_keys@) =~= crate::config::views(old_runtime).push(
                    runtime@,
                ));
                assert(crate::config::views(repo_keys@) =~= repos(all@).take(i + 1));
                assert(crate::config::views(runtime_keys@) =~= runtime_names(all@).take(i + 1));
            }
        }
        proof {
            assert(repos(all@).take(n as int) =~= repos(all@));
            assert(runtime_names(all@).take(n as int) =~= runtime_names(all@));
        }
        let repo_counts = count_by(&repo_keys, 5);
        let runtime_counts = count_by(&runtime_keys, 3);
        DashboardData {
            generated_at,
            scope,
            visible_tasks: visible,
            all_tasks: all,
            visible_summary,
            all_summary,
            repo_counts,
            runtime_counts,
        }
    }

    /// The dashboard of `tasks` in `scope`, read now.
    pub fn load(tasks: Vec<TaskRecord>, scope: OverviewScope) -> (r: Self)
        ensures
            exists|at: Moment| at.spec_secs() >= 0 && dashboard_of(r, tasks@, scope, at),
    {
        let now = crate::model::utc_now();
        Self::from_tasks(tasks, scope, now)
    }

    /// The tasks that `filter` shows, newest first.
    pub fn filtered_tasks(&self, filter: TasksFilter) -> (r: Vec<&TaskRecord>)
        ensures
            r@.len() == filter_positions(self.all_tasks@, filter).len(),
            forall|k: int|
                0 <= k < r@.len() ==> *(#[trigger] r@[k]) == self.all_tasks@[filter_positions(
                    self.all_tasks@,
                    filter,
                )[k]],
    {
        let ghost ts = self.all_tasks@;
        let mut out: Vec<&TaskRecord> = Vec::new();
        let mut i: usize = 0;
        while i < self.all_tasks.len()
            invariant
                ts == self.all_tasks@,
                i <= ts.len(),
                out@.len() == filter_positions(ts.take(i as int), filter).len(),
                forall|k: int|
                    0 <= k < out@.len() ==> *(#[trigger] out@[k]) == ts[filter_positions(
                        ts.take(i as int),
                        filter,
                    )[k]],
            decreases ts.len() - i,
        {
            proof {
                assert(ts.take(i + 1).drop_last() =~= ts.take(i as int));
                assert(ts.take(i + 1).last() == ts[i as int]);
                lemma_filter_positions(ts.take(i as int), filter);
            }
            if filter.matches(&self.all_tasks[i].state) {
                out.push(&self.all_tasks[i]);
            }
            i += 1;
        }
        proof {
            assert(ts.take(ts.len() as int) =~= ts);
        }
        out
    }
}

} // verus!
