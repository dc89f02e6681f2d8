//! Task records as the store hands them to the pane and overview views.
use crate::config::TaskRuntime;
use vstd::prelude::*;

verus! {

#[derive(Debug, Clone, Copy, PartialEq, Eq, Structural)]
pub enum TaskState {
    Queued,
    Dispatching,
    Running,
    WaitingInput,
    Succeeded,
    Failed,
    Canceled,
}

/// Succeeded, failed and canceled tasks are finished.
pub open spec fn state_is_terminal(s: TaskState) -> bool {
    s == TaskState::Succeeded || s == TaskState::Failed || s == TaskState::Canceled
}

impl TaskState {
    pub fn is_terminal(&self) -> (r: bool)
        ensures
            r == state_is_terminal(*self),
    {
        match self {
            TaskState::Succeeded | TaskState::Failed | TaskState::Canceled => true,
            _ => false,
        }
    }
}

#[derive(Debug, Clone, Copy, PartialEq, Eq, Structural)]
pub enum TaskMode {
    Manual,
    Auto,
}

/// Where a task was dispatched from.
#[derive(Debug, Clone)]
pub struct TaskOrigin {
    pub session_name: String,
    pub pane_id: String,
    pub pane_current_path: String,
}

/// The first and last second chrono represents, in seconds since the Unix
/// epoch: the start of -262143-01-01 and the last second of 262142-12-31
/// (UTC).
pub open spec fn first_second() -> int {
    -8_334_601_228_800
}

pub open spec fn last_second() -> int {
    8_210_266_876_799
}

/// Seconds and nanoseconds that name an instant chrono can hold: a second
/// in its range, and nanoseconds under one second, or under two in the
/// last second of a minute (a leap second).
pub open spec fn moment_valid(secs: int, nanos: int) -> bool {
    &&& first_second() <= secs <= last_second()
    &&& 0 <= nanos
    &&& (nanos < 1_000_000_000 || (nanos < 2_000_000_000 && secs % 60 == 59))
}

proof fn lemma_ends_minute(s: int)
    ensures
        ((s + 1) % 60 == 0) == (s % 60 == 59),
        ((-(s + 1)) % 60 == 0) == ((s + 1) % 60 == 0),
{
    let q = s / 60;
    let r = s % 60;
    vstd::arithmetic::div_mod::lemma_fundamental_div_mod(s, 60);
    vstd::arithmetic::div_mod::lemma_mod_bound(s, 60);
    assert(s == 60 * q + r && 0 <= r < 60);
    let x = s + 1;
    let q2 = x / 60;
    let r2 = x % 60;
    vstd::arithmetic::div_mod::lemma_fundamental_div_mod(x, 60);
    vstd::arithmetic::div_mod::lemma_mod_bound(x, 60);
    assert(x == 60 * q2 + r2 && 0 <= r2 < 60);
    let y = -x;
    let q3 = y / 60;
    let r3 = y % 60;
    vstd::arithmetic::div_mod::lemma_fundamental_div_mod(y, 60);
    vstd::arithmetic::div_mod::lemma_mod_bound(y, 60);
    assert(y == 60 * q3 + r3 && 0 <= r3 < 60);
    if r == 59 {
        assert(x == 60 * (q + 1));
        assert(r2 == 0 && q2 == q + 1) by (nonlinear_arith)
            requires
                x == 60 * q2 + r2,
                0 <= r2 < 60,
                x == 60 * (q + 1),
        ;
    }
    if r2 == 0 {
        assert(r == 59) by (nonlinear_arith)
            requires
                s == 60 * q + r,
                0 <= r < 60,
                s + 1 == 60 * q2,
        ;
        assert(r3 == 0) by (nonlinear_arith)
            requires
                y == 60 * q3 + r3,
                0 <= r3 < 60,
                y == 60 * (-q2),
        ;
    }
    if r3 == 0 {
        assert(r2 == 0) by (nonlinear_arith)
            requires
                x == 60 * q2 + r2,
                0 <= r2 < 60,
                x == 60 * (-q3),
        ;
    }
}

/// An instant in UTC: whole seconds since the Unix epoch and nanoseconds
/// into that second, as `chrono::DateTime<Utc>` holds it.
#[derive(Debug, Clone, Copy, PartialEq, Eq, Structural)]
pub struct Moment {
    secs: i64,
    nanos: u32,
}

impl Moment {
    #[verifier::type_invariant]
    spec fn valid(self) -> bool {
        moment_valid(self.secs as int, self.nanos as int)
    }

    pub closed spec fn spec_secs(self) -> i64 {
        self.secs
    }

    pub closed spec fn spec_nanos(self) -> u32 {
        self.nanos
    }

    /// The instant `secs` seconds and `nanos` nanoseconds after the epoch,
    /// where chrono can hold it.
    pub fn new(secs: i64, nanos: u32) -> (r: Option<Moment>)
        ensures
            r is Some == moment_valid(secs as int, nanos as int),
            r matches Some(m) ==> m.spec_secs() == secs && m.spec_nanos() == nanos,
    {
        if !(-8_334_601_228_800i64 <= secs && secs <= 8_210_266_876_799i64) {
            return None;
        }
        // `secs` ends a minute when `secs + 1` is a whole number of minutes.
        let next: u64 = if secs >= 0 {
            (secs + 1) as u64
        } else {
            (-(secs + 1)) as u64
        };
        let last_of_minute = next % 60 == 0;
        proof {
            lemma_ends_minute(secs as int);
        }
        if nanos < 1_000_000_000 || (nanos < 2_000_000_000 && last_of_minute) {
            Some(Moment { secs, nanos })
        } else {
            None
        }
    }

    #[verifier::when_used_as_spec(spec_secs)]
    pub fn secs(self) -> (r: i64)
        ensures
            r == self.spec_secs(),
    {
        self.secs
    }

    #[verifier::when_used_as_spec(spec_nanos)]
    pub fn nanos(self) -> (r: u32)
        ensures
            r == self.spec_nanos(),
    {
        self.nanos
    }

    /// Every moment names an instant chrono can hold.
    pub(crate) fn assert_valid(&self)
        ensures
            moment_valid(self.spec_secs() as int, self.spec_nanos() as int),
    {
        proof {
            use_type_invariant(self);
        }
    }
}

/// The current time (`chrono::Utc::now`). It is what the clock says, so
/// nothing is claimed of it but what chrono's code gives of every reading:
/// an instant chrono holds, not before 1970 (before that chrono panics),
/// with nanoseconds under one second.
#[verifier::external_body]
pub(crate) fn utc_now() -> (r: Moment)
    ensures
        moment_valid(r.spec_secs() as int, r.spec_nanos() as int),
        r.spec_secs() >= 0,
        r.spec_nanos() < 1_000_000_000,
{
    let now = chrono::Utc::now();
    Moment { secs: now.timestamp(), nanos: now.timestamp_subsec_nanos() }
}

/// The whole seconds from `then` to `now` that chrono reports
/// (`(now - then).num_seconds()`, leap seconds counted its way).
pub uninterp spec fn utc_seconds_between(now_secs: i64, now_nanos: u32, then_secs: i64, then_nanos: u32) -> i64;

/// The whole seconds from `then` to `now`, as chrono counts them
/// (`DateTime::from_timestamp`, subtraction and `num_seconds`). The result
/// is the name [`utc_seconds_between`] of the four parts; both instants
/// must be ones chrono can hold, which every moment is.
#[verifier::external_body]
pub(crate) fn whole_seconds_between(now: Moment, then: Moment) -> (r: i64)
    requires
        moment_valid(now.spec_secs() as int, now.spec_nanos() as int),
        moment_valid(then.spec_secs() as int, then.spec_nanos() as int),
    ensures
        r == utc_seconds_between(now.spec_secs(), now.spec_nanos(), then.spec_secs(), then.spec_nanos()),
{
    let a = chrono::DateTime::from_timestamp(now.secs, now.nanos).unwrap();
    let b = chrono::DateTime::from_timestamp(then.secs, then.nanos).unwrap();
    (a - b).num_seconds()
}

/// What chrono writes for the instant, formatted as
/// `%Y-%m-%d %H:%M:%S UTC`.
pub uninterp spec fn utc_timestamp_text(secs: i64, nanos: u32) -> Seq<char>;

/// The instant as `YYYY-MM-DD HH:MM:SS UTC`, written by chrono
/// (`DateTime::from_timestamp` and `format`); the text is the name
/// [`utc_timestamp_text`] of its parts.
#[verifier::external_body]
pub(crate) fn format_utc(m: Moment) -> (r: String)
    requires
        moment_valid(m.spec_secs() as int, m.spec_nanos() as int),
    ensures
        r@ == utc_timestamp_text(m.spec_secs(), m.spec_nanos()),
{
    chrono::DateTime::from_timestamp(m.secs, m.nanos).unwrap().format("%Y-%m-%d %H:%M:%S UTC").to_string()
}

/// A task, with its times as instants in UTC.
#[derive(Debug, Clone)]
pub struct TaskRecord {
    pub id: String,
    pub title: String,
    pub repo: String,
    pub repo_root: String,
    pub mode: TaskMode,
    pub runtime: TaskRuntime,
    pub branch: Option<String>,
    pub worktree: Option<String>,
    pub session: Option<String>,
    pub command: Vec<String>,
    pub priority: i64,
    pub external_ref: Option<String>,
    pub origin: Option<TaskOrigin>,
    pub state: TaskState,
    pub reason: String,
    pub last_error: Option<String>,
    pub log_file: String,
    pub created_at: Moment,
    pub updated_at: Moment,
    pub finished_at: Option<Moment>,
}

/// Two task records hold the same values.
pub open spec fn same_task(a: TaskRecord, b: TaskRecord) -> bool {
    &&& a.id == b.id
    &&& a.title == b.title
    &&& a.repo == b.repo
    &&& a.repo_root == b.repo_root
    &&& a.mode == b.mode
    &&& a.runtime == b.runtime
    &&& a.branch == b.branch
    &&& a.worktree == b.worktree
    &&& a.session == b.session
    &&& a.command@ == b.command@
    &&& a.priority == b.priority
    &&& a.external_ref == b.external_ref
    &&& a.origin == b.origin
    &&& a.state == b.state
    &&& a.reason == b.reason
    &&& a.last_error == b.last_error
    &&& a.log_file == b.log_file
    &&& a.created_at == b.created_at
    &&& a.updated_at == b.updated_at
    &&& a.finished_at == b.finished_at
}

pub open spec fn same_opt_task(a: Option<TaskRecord>, b: Option<TaskRecord>) -> bool {
    match (a, b) {
        (Some(x), Some(y)) => same_task(x, y),
        (None, None) => true,
        _ => false,
    }
}

pub fn copy_string_opt(o: &Option<String>) -> (r: Option<String>)
    ensures
        r == *o,
{
    match o {
        Some(s) => Some(s.clone()),
        None => None,
    }
}

pub fn copy_strings(v: &Vec<String>) -> (r: Vec<String>)
    ensures
        r@ == v@,
{
    let mut r: Vec<String> = Vec::new();
    for i in 0..v.len()
        invariant
            r@ == v@.take(i as int),
    {
        r.push(v[i].clone());
    }
    proof {
        assert(v@.take(v@.len() as int) =~= v@);
    }
    r
}

impl TaskOrigin {
    pub fn duplicate(&self) -> (r: Self)
        ensures
            r == *self,
    {
        TaskOrigin {
            session_name: self.session_name.clone(),
            pane_id: self.pane_id.clone(),
            pane_current_path: self.pane_current_path.clone(),
        }
    }
}

impl TaskRecord {
    /// A record with the same values.
    pub fn duplicate(&self) -> (r: Self)
        ensures
            same_task(r, *self),
    {
        TaskRecord {
            id: self.id.clone(),
            title: self.title.clone(),
            repo: self.repo.clone(),
            repo_root: self.repo_root.clone(),
            mode: self.mode,
            runtime: self.runtime,
            branch: copy_string_opt(&self.branch),
            worktree: copy_string_opt(&self.worktree),
            session: copy_string_opt(&self.session),
            command: copy_strings(&self.command),
            priority: self.priority,
            external_ref: copy_string_opt(&self.external_ref),
            origin: match &self.origin {
                Some(o) => Some(o.duplicate()),
                None => None,
            },
            state: self.state,
            reason: self.reason.clone(),
            last_error: copy_string_opt(&self.last_error),
            log_file: self.log_file.clone(),
            created_at: self.created_at,
            updated_at: self.updated_at,
            finished_at: self.finished_at,
        }
    }
}

pub fn copy_task_opt(t: &Option<TaskRecord>) -> (r: Option<TaskRecord>)
    ensures
        same_opt_task(r, *t),
{
    match t {
        Some(task) => Some(task.duplicate()),
        None => None,
    }
}

/// Which tasks an overview covers.
#[derive(Debug, Clone, Copy, PartialEq, Eq, Structural)]
pub enum OverviewScope {
    NonTerminal,
    Terminal,
    All,
}

pub open spec fn scope_matches(state: TaskState, scope: OverviewScope) -> bool {
    match scope {
        OverviewScope::NonTerminal => !state_is_terminal(state),
        OverviewScope::Terminal => state_is_terminal(state),
        OverviewScope::All => true,
    }
}

/// Whether a task in `state` belongs to `scope`.
pub fn overview_scope_matches(state: &TaskState, scope: &OverviewScope) -> (r: bool)
    ensures
        r == scope_matches(*state, *scope),
{
    match scope {
        OverviewScope::NonTerminal => !state.is_terminal(),
        OverviewScope::Terminal => state.is_terminal(),
        OverviewScope::All => true,
    }
}

} // verus!
