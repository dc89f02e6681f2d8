//! The tmux pane list: pane snapshots with the task, repository and git
//! state of each pane, and the decisions of the `panes` commands.
use crate::model::{copy_string_opt, copy_task_opt, same_opt_task, TaskRecord};
use crate::order::{is_index_perm, stable_order, stably_sorted, SortKey};
use crate::panes_support::{
    bool_flag, build_label_with_home, deref_task, label_spec, opt_or_empty, opt_seq, pane_row,
    pane_row_spec, pane_sort_key, ref_seq, row_agent, row_git, row_runtime, runtime_label,
    sort_key_of, state_name, state_rank_spec, task_state_label, GitInfo, PaneSortKey, RawPane,
};
use crate::text::{append_str, chars_of, from_chars};
use vstd::prelude::*;

verus! {

/// The working-tree state of a pane's repository.
#[derive(Debug, Clone)]
pub struct PaneGitSummary {
    pub dirty: bool,
    pub changed_files: usize,
    pub deleted_files: usize,
    pub untracked_files: usize,
    pub insertions: usize,
    pub deletions: usize,
    pub label: String,
}

/// One tmux pane, with what swarmux knows about it.
#[derive(Debug, Clone)]
pub struct PaneSnapshot {
    pub current: bool,
    pub managed_by_swarmux: bool,
    pub session_name: String,
    pub window_id: String,
    pub window_index: i64,
    pub window_name: String,
    pub pane_id: String,
    pub pane_index: i64,
    pub pane_active: bool,
    pub window_bell_flag: bool,
    pub pane_current_path: String,
    pub pane_current_command: String,
    pub pane_title: String,
    pub task: Option<TaskRecord>,
    pub repo_root: Option<String>,
    pub repo: Option<String>,
    pub branch: Option<String>,
    pub git: Option<PaneGitSummary>,
    pub label: String,
}

/// Totals over a pane list.
#[derive(Debug, Clone, Copy)]
pub struct PaneCounts {
    pub panes: usize,
    pub sessions: usize,
    pub managed_panes: usize,
    pub dirty_panes: usize,
    pub waiting_input: usize,
    pub current: usize,
}

/// Two snapshots hold the same values.
pub open spec fn same_snapshot(a: PaneSnapshot, b: PaneSnapshot) -> bool {
    &&& a.current == b.current
    &&& a.managed_by_swarmux == b.managed_by_swarmux
    &&& a.session_name == b.session_name
    &&& a.window_id == b.window_id
    &&& a.window_index == b.window_index
    &&& a.window_name == b.window_name
    &&& a.pane_id == b.pane_id
    &&& a.pane_index == b.pane_index
    &&& a.pane_active == b.pane_active
    &&& a.window_bell_flag == b.window_bell_flag
    &&& a.pane_current_path == b.pane_current_path
    &&& a.pane_current_command == b.pane_current_command
    &&& a.pane_title == b.pane_title
    &&& same_opt_task(a.task, b.task)
    &&& a.repo_root == b.repo_root
    &&& a.repo == b.repo
    &&& a.branch == b.branch
    &&& a.git == b.git
    &&& a.label == b.label
}

impl PaneGitSummary {
    pub fn duplicate(&self) -> (r: Self)
        ensures
            r == *self,
    {
        PaneGitSummary {
            dirty: self.dirty,
            changed_files: self.changed_files,
            deleted_files: self.deleted_files,
            untracked_files: self.untracked_files,
            insertions: self.insertions,
            deletions: self.deletions,
            label: self.label.clone(),
        }
    }
}

pub fn copy_git_opt(g: &Option<PaneGitSummary>) -> (r: Option<PaneGitSummary>)
    ensures
        r == *g,
{
    match g {
        Some(x) => Some(x.duplicate()),
        None => None,
    }
}

impl PaneSnapshot {
    /// A snapshot with the same values.
    pub fn duplicate(&self) -> (r: Self)
        ensures
            same_snapshot(r, *self),
    {
        PaneSnapshot {
            current: self.current,
            managed_by_swarmux: self.managed_by_swarmux,
            session_name: self.session_name.clone(),
            window_id: self.window_id.clone(),
            window_index: self.window_index,
            window_name: self.window_name.clone(),
            pane_id: self.pane_id.clone(),
            pane_index: self.pane_index,
            pane_active: self.pane_active,
            window_bell_flag: self.window_bell_flag,
            pane_current_path: self.pane_current_path.clone(),
            pane_current_command: self.pane_current_command.clone(),
            pane_title: self.pane_title.clone(),
            task: copy_task_opt(&self.task),
            repo_root: copy_string_opt(&self.repo_root),
            repo: copy_string_opt(&self.repo),
            branch: copy_string_opt(&self.branch),
            git: copy_git_opt(&self.git),
            label: self.label.clone(),
        }
    }
}

// ---------------------------------------------------------------------
// Shell quoting
// ---------------------------------------------------------------------

/// The characters of `s` with each `'` written as `'"'"'`.
pub open spec fn quote_body(s: Seq<char>) -> Seq<char>
    decreases s.len(),
{
    if s.len() == 0 {
        Seq::empty()
    } else {
        quote_body(s.drop_last()) + if s.last() == '\'' {
            seq!['\'', '"', '\'', '"', '\'']
        } else {
            seq![s.last()]
        }
    }
}

/// `s` as one single-quoted shell word.
pub open spec fn shell_quote_spec(s: Seq<char>) -> Seq<char> {
    if s.len() == 0 {
        seq!['\'', '\'']
    } else {
        seq!['\''] + quote_body(s) + seq!['\'']
    }
}

/// Quotes `value` for `sh`, so that the shell reads it back unchanged.
pub fn shell_quote(value: &str) -> (r: String)
    ensures
        r@ == shell_quote_spec(value@),
{
    let v = chars_of(value);
    if v.len() == 0 {
        let mut e: Vec<char> = Vec::new();
        e.push('\'');
        e.push('\'');
        proof {
            assert(e@ =~= seq!['\'', '\'']);
        }
        return from_chars(&e);
    }
    let mut quoted: Vec<char> = Vec::new();
    quoted.push('\'');
    for i in 0..v.len()
        invariant
            v@ == value@,
            quoted@ == seq!['\''] + quote_body(v@.take(i as int)),
    {
        proof {
            assert(v@.take(i + 1).drop_last() =~= v@.take(i as int));
            assert(v@.take(i + 1).last() == v@[i as int]);
        }
        let ch = v[i];
        if ch == '\'' {
            quoted.push('\'');
            quoted.push('"');
            quoted.push('\'');
            quoted.push('"');
            quoted.push('\'');
        } else {
            quoted.push(ch);
        }
        proof {
            assert(quoted@ =~= seq!['\''] + quote_body(v@.take(i + 1)));
        }
    }
    quoted.push('\'');
    proof {
        assert(v@.take(v@.len() as int) =~= v@);
        assert(quoted@ =~= seq!['\''] + quote_body(v@) + seq!['\'']);
    }
    from_chars(&quoted)
}

/// How `sh` reads a word made of quoted parts: the state after reading
/// `w` (0 outside quotes, 1 inside `'...'`, 2 inside `"..."`, 3 for text
/// that this reading does not cover) and the characters it stands for.
pub open spec fn shell_read(w: Seq<char>) -> (int, Seq<char>)
    decreases w.len(),
{
    if w.len() == 0 {
        (0, Seq::empty())
    } else {
        let (st, acc) = shell_read(w.drop_last());
        let c = w.last();
        if st == 0 {
            if c == '\'' {
                (1, acc)
            } else if c == '"' {
                (2, acc)
            } else {
                (3, acc)
            }
        } else if st == 1 {
            if c == '\'' {
                (0, acc)
            } else {
                (1, acc.push(c))
            }
        } else if st == 2 {
            if c == '"' {
                (0, acc)
            } else if c == '\\' || c == '$' || c == '`' {
                (3, acc)
            } else {
                (2, acc.push(c))
            }
        } else {
            (3, acc)
        }
    }
}

proof fn lemma_shell_read_body(v: Seq<char>)
    ensures
        shell_read(seq!['\''] + quote_body(v)) == (1int, v),
    decreases v.len(),
{
    if v.len() == 0 {
        assert(seq!['\''] + quote_body(v) =~= seq!['\'']);
        assert(seq!['\''].drop_last() =~= Seq::<char>::empty());
        assert(v =~= Seq::<char>::empty());
        assert(shell_read(Seq::<char>::empty()) == (0int, Seq::<char>::empty()));
        assert(shell_read(seq!['\'']) == (1int, Seq::<char>::empty()));
    } else {
        assert(v.drop_last().push(v.last()) =~= v);
        lemma_shell_read_body(v.drop_last());
        let pre = seq!['\''] + quote_body(v.drop_last());
        if v.last() == '\'' {
            let w1 = pre.push('\'');
            let w2 = w1.push('"');
            let w3 = w2.push('\'');
            let w4 = w3.push('"');
            let w5 = w4.push('\'');
            assert(w1.drop_last() =~= pre);
            assert(w2.drop_last() =~= w1);
            assert(w3.drop_last() =~= w2);
            assert(w4.drop_last() =~= w3);
            assert(w5.drop_last() =~= w4);
            assert(shell_read(w1) == (0int, v.drop_last()));
            assert(shell_read(w2) == (2int, v.drop_last()));
            assert(shell_read(w3) == (2int, v.drop_last().push('\'')));
            assert(shell_read(w4) == (0int, v.drop_last().push('\'')));
            assert(shell_read(w5) == (1int, v.drop_last().push('\'')));
            assert(seq!['\''] + quote_body(v) =~= w5);
        } else {
            let w1 = pre.push(v.last());
            assert(w1.drop_last() =~= pre);
            assert(shell_read(w1) == (1int, v.drop_last().push(v.last())));
            assert(seq!['\''] + quote_body(v) =~= w1);
        }
        assert(v.drop_last().push(v.last()) =~= v);
    }
}

/// The shell reads a quoted value back as that value.
pub proof fn lemma_shell_quote_roundtrip(v: Seq<char>)
    ensures
        shell_read(shell_quote_spec(v)) == (0int, v),
{
    lemma_shell_read_body(v);
    let q = shell_quote_spec(v);
    assert(q.drop_last() =~= seq!['\''] + quote_body(v)) by {
        if v.len() == 0 {
            assert(quote_body(v) =~= Seq::<char>::empty());
        }
    }
}

// ---------------------------------------------------------------------
// Pane commands
// ---------------------------------------------------------------------

/// The arguments with which the sidebar pane starts swarmux.
pub fn sidebar_child_args(source_pane_id: &str) -> (r: Vec<String>)
    ensures
        r@.len() == 5,
        r@[0]@ == "panes"@,
        r@[1]@ == "switch"@,
        r@[2]@ == "--tui-sidebar"@,
        r@[3]@ == "--pane-id"@,
        r@[4]@ == source_pane_id@,
{
    let mut v: Vec<String> = Vec::new();
    v.push(String::from_str("panes"));
    v.push(String::from_str("switch"));
    v.push(String::from_str("--tui-sidebar"));
    v.push(String::from_str("--pane-id"));
    v.push(String::from_str(source_pane_id));
    v
}

/// The tmux format of a row in the swarmux pane tree.
pub const SWARMUX_TREE_FORMAT: &'static str =
    "#{?pane_format,#{@swx_row},#{?window_format,#{window_index}:#{window_name},#{session_name}}}";

/// The shell command that the pane tree runs for the chosen pane.
pub const SWARMUX_TREE_TEMPLATE: &'static str =
    "sh -lc 'target=\"$1\"; pane_id=\"$(tmux display-message -p -t \"$target\" \"#{pane_id}\" 2>/dev/null || true)\"; if [ -z \"$pane_id\" ]; then exit 0; fi; session_name=\"$(tmux display-message -p -t \"$target\" \"#{session_name}\")\"; window_id=\"$(tmux display-message -p -t \"$target\" \"#{window_id}\")\"; tmux switch-client -t \"$session_name\"; tmux select-window -t \"$window_id\"; tmux select-pane -t \"$pane_id\"' sh '%%'";

/// The title of the pane tree popup.
pub const SWARMUX_TREE_TITLE: &'static str = "Swarmux Panes";

/// The `tmux choose-tree` command that the popup runs, limited to the
/// sessions that `filter` keeps.
pub fn choose_tree_command(filter: &str) -> (r: String)
    ensures
        r@ == "tmux choose-tree -f "@ + shell_quote_spec(filter@) + " -F "@ + shell_quote_spec(
            SWARMUX_TREE_FORMAT@,
        ) + " "@ + shell_quote_spec(SWARMUX_TREE_TEMPLATE@),
{
    let mut v: Vec<char> = Vec::new();
    append_str(&mut v, "tmux choose-tree -f ");
    append_str(&mut v, shell_quote(filter).as_str());
    append_str(&mut v, " -F ");
    append_str(&mut v, shell_quote(SWARMUX_TREE_FORMAT).as_str());
    append_str(&mut v, " ");
    append_str(&mut v, shell_quote(SWARMUX_TREE_TEMPLATE).as_str());
    from_chars(&v)
}

/// The arguments of `tmux split-window` that open the sidebar beside a
/// pane: 42 columns wide, in the pane's directory, running `binary` with
/// [`sidebar_child_args`].
pub fn sidebar_split_args(pane_current_path: &str, binary: &str, source_pane_id: &str) -> (r: Vec<
    String,
>)
    ensures
        r@.len() == 17,
        r@[0]@ == "split-window"@,
        r@[1]@ == "-P"@,
        r@[2]@ == "-F"@,
        r@[3]@ == "#{pane_id}"@,
        r@[4]@ == "-h"@,
        r@[5]@ == "-l"@,
        r@[6]@ == "42"@,
        r@[7]@ == "-c"@,
        r@[8]@ == pane_current_path@,
        r@[9]@ == "-e"@,
        r@[10]@ == "SWARMUX_TUI_SIDEBAR_AUTOCLOSE=1"@,
        r@[11]@ == binary@,
        r@[12]@ == "panes"@,
        r@[13]@ == "switch"@,
        r@[14]@ == "--tui-sidebar"@,
        r@[15]@ == "--pane-id"@,
        r@[16]@ == source_pane_id@,
{
    let mut v: Vec<String> = Vec::new();
    v.push(String::from_str("split-window"));
    v.push(String::from_str("-P"));
    v.push(String::from_str("-F"));
    v.push(String::from_str("#{pane_id}"));
    v.push(String::from_str("-h"));
    v.push(String::from_str("-l"));
    v.push(String::from_str("42"));
    v.push(String::from_str("-c"));
    v.push(String::from_str(pane_current_path));
    v.push(String::from_str("-e"));
    v.push(String::from_str("SWARMUX_TUI_SIDEBAR_AUTOCLOSE=1"));
    v.push(String::from_str(binary));
    v.push(String::from_str("panes"));
    v.push(String::from_str("switch"));
    v.push(String::from_str("--tui-sidebar"));
    v.push(String::from_str("--pane-id"));
    v.push(String::from_str(source_pane_id));
    v
}

/// The position of the first current pane.
pub open spec fn first_current(s: Seq<PaneSnapshot>) -> Option<int>
    decreases s.len(),
{
    if s.len() == 0 {
        None
    } else {
        match first_current(s.drop_last()) {
            Some(i) => Some(i),
            None => if s.last().current {
                Some(s.len() - 1)
            } else {
                None
            },
        }
    }
}

proof fn lemma_first_current_take(s: Seq<PaneSnapshot>, i: int)
    requires
        0 <= i < s.len(),
        first_current(s.take(i)) is None,
        s[i].current,
    ensures
        first_current(s) == Some(i),
    decreases s.len() - i,
{
    if i + 1 < s.len() {
        assert(s.take(i + 1).drop_last() =~= s.take(i));
        lemma_first_current_stays(s, i + 1, i);
    } else {
        assert(s.drop_last() =~= s.take(i));
    }
}

proof fn lemma_first_current_stays(s: Seq<PaneSnapshot>, j: int, i: int)
    requires
        0 <= i < j <= s.len(),
        first_current(s.take(j)) == Some(i),
    ensures
        first_current(s) == Some(i),
    decreases s.len() - j,
{
    if j < s.len() {
        assert(s.take(j + 1).drop_last() =~= s.take(j));
        lemma_first_current_stays(s, j + 1, i);
    } else {
        assert(s.take(j) =~= s);
    }
}

/// The id of the first pane that is the current one.
pub fn current_pane_id(panes: &Vec<PaneSnapshot>) -> (r: Option<String>)
    ensures
        match first_current(panes@) {
            Some(i) => r == Some(panes@[i].pane_id),
            None => r is None,
        },
{
    let mut i: usize = 0;
    while i < panes.len()
        invariant
            i <= panes.len(),
            first_current(panes@.take(i as int)) is None,
        decreases panes.len() - i,
    {
        proof {
            assert(panes@.take(i + 1).drop_last() =~= panes@.take(i as int));
        }
        if panes[i].current {
            proof {
                lemma_first_current_take(panes@, i as int);
            }
            return Some(panes[i].pane_id.clone());
        }
        i += 1;
    }
    proof {
        assert(panes@.take(panes@.len() as int) =~= panes@);
    }
    None
}

/// The tmux pane options that describe a pane, in the order they are set.
pub open spec fn pane_options_spec(p: PaneSnapshot) -> Seq<(Seq<char>, Seq<char>)> {
    seq![
        ("@swx_current"@, if p.current {
            "1"@
        } else {
            "0"@
        }),
        ("@swx_managed"@, if p.managed_by_swarmux {
            "1"@
        } else {
            "0"@
        }),
        ("@swx_label"@, p.label@),
        ("@swx_row"@, pane_row_spec(p)),
        ("@swx_title"@, match p.task {
            Some(t) => t.title@,
            None => p.pane_current_command@,
        }),
        ("@swx_agent"@, row_agent(p)),
        ("@swx_runtime"@, row_runtime(p)),
        ("@swx_state"@, match p.task {
            Some(t) => state_name(t.state),
            None => Seq::empty(),
        }),
        ("@swx_repo"@, opt_or_empty(p.repo)),
        ("@swx_branch"@, opt_or_empty(p.branch)),
        ("@swx_git"@, row_git(p)),
        ("@swx_path"@, match p.repo_root {
            Some(r) => r@,
            None => p.pane_current_path@,
        }),
        ("@swx_task_id"@, match p.task {
            Some(t) => t.id@,
            None => Seq::empty(),
        }),
    ]
}

fn option_pair(name: &str, value: &str) -> (r: (String, String))
    ensures
        r.0@ == name@,
        r.1@ == value@,
{
    (String::from_str(name), String::from_str(value))
}

/// The (name, value) pairs of the tmux options that `panes sync-tmux-meta`
/// sets on a pane.
pub fn pane_options(pane: &PaneSnapshot) -> (r: Vec<(String, String)>)
    ensures
        r@.len() == pane_options_spec(*pane).len(),
        forall|i: int|
            0 <= i < r@.len() ==> (#[trigger] r@[i]).0@ == pane_options_spec(*pane)[i].0 && r@[i].1@
                == pane_options_spec(*pane)[i].1,
{
    proof {
        reveal_strlit("");
    }
    let row = pane_row(pane);
    let mut v: Vec<(String, String)> = Vec::new();
    v.push(option_pair("@swx_current", bool_flag(pane.current)));
    v.push(option_pair("@swx_managed", bool_flag(pane.managed_by_swarmux)));
    v.push(option_pair("@swx_label", pane.label.as_str()));
    v.push(option_pair("@swx_row", row.as_str()));
    let title: &str = match &pane.task {
        Some(t) => t.title.as_str(),
        None => pane.pane_current_command.as_str(),
    };
    v.push(option_pair("@swx_title", title));
    let agent: &str = match &pane.task {
        Some(t) => if t.command.len() > 0 {
            t.command[0].as_str()
        } else {
            pane.pane_current_command.as_str()
        },
        None => pane.pane_current_command.as_str(),
    };
    v.push(option_pair("@swx_agent", agent));
    let runtime: &str = match &pane.task {
        Some(t) => runtime_label(t),
        None => "",
    };
    v.push(option_pair("@swx_runtime", runtime));
    let state: &str = match &pane.task {
        Some(t) => task_state_label(&t.state),
        None => "",
    };
    v.push(option_pair("@swx_state", state));
    let repo: &str = match &pane.repo {
        Some(r) => r.as_str(),
        None => "",
    };
    v.push(option_pair("@swx_repo", repo));
    let branch: &str = match &pane.branch {
        Some(b) => b.as_str(),
        None => "",
    };
    v.push(option_pair("@swx_branch", branch));
    let git: &str = match &pane.git {
        Some(g) => g.label.as_str(),
        None => "",
    };
    v.push(option_pair("@swx_git", git));
    let path: &str = match &pane.repo_root {
        Some(r) => r.as_str(),
        None => pane.pane_current_path.as_str(),
    };
    v.push(option_pair("@swx_path", path));
    let id: &str = match &pane.task {
        Some(t) => t.id.as_str(),
        None => "",
    };
    v.push(option_pair("@swx_task_id", id));
    v
}

/// The `panes` subcommands.
#[derive(Debug, Clone, PartialEq, Eq)]
pub enum PanesCommand {
    /// Write swarmux's view of each pane into tmux pane options.
    SyncTmuxMeta,
    /// Switch panes: open the sidebar, the switcher in full screen or as
    /// the sidebar, or else the tmux tree popup.
    Switch { pane_id: Option<String>, launch_sidebar: bool, tui: bool, tui_sidebar: bool },
    /// Focus the `index`-th managed pane.
    Jump { index: usize },
}

/// What the `panes` command does.
#[derive(Debug, Clone, PartialEq, Eq)]
pub enum PanesAction {
    SyncTmuxMeta,
    LaunchSidebar(Option<String>),
    SwitcherFullscreen(Option<String>),
    SwitcherSidebar(Option<String>),
    TreePopup,
    Jump(usize),
    List,
}

/// The action of a `panes` command line: no subcommand lists the panes;
/// `switch` opens the sidebar, the switcher or the sidebar list, in that
/// order of precedence, else the tree popup.
pub fn run(command: Option<PanesCommand>) -> (r: PanesAction)
    ensures
        match command {
            None => r == PanesAction::List,
            Some(PanesCommand::SyncTmuxMeta) => r == PanesAction::SyncTmuxMeta,
            Some(PanesCommand::Jump { index }) => r == PanesAction::Jump(index),
            Some(PanesCommand::Switch { pane_id, launch_sidebar, tui, tui_sidebar }) => r == if launch_sidebar {
                PanesAction::LaunchSidebar(pane_id)
            } else if tui {
                PanesAction::SwitcherFullscreen(pane_id)
            } else if tui_sidebar {
                PanesAction::SwitcherSidebar(pane_id)
            } else {
                PanesAction::TreePopup
            },
        },
{
    match command {
        None => PanesAction::List,
        Some(PanesCommand::SyncTmuxMeta) => PanesAction::SyncTmuxMeta,
        Some(PanesCommand::Jump { index }) => PanesAction::Jump(index),
        Some(PanesCommand::Switch { pane_id, launch_sidebar, tui, tui_sidebar }) => {
            if launch_sidebar {
                PanesAction::LaunchSidebar(pane_id)
            } else if tui {
                PanesAction::SwitcherFullscreen(pane_id)
            } else if tui_sidebar {
                PanesAction::SwitcherSidebar(pane_id)
            } else {
                PanesAction::TreePopup
            }
        },
    }
}

/// Why `panes jump` found no pane.
#[derive(Debug, Clone, Copy, PartialEq, Eq, Structural)]
pub enum JumpError {
    /// The index is not between 1 and 9.
    IndexOutOfRange,
    /// There are fewer managed panes than the index (which it holds).
    NoManagedPane(usize),
}

/// The positions of the panes that swarmux manages, in order.
pub open spec fn managed_positions(s: Seq<PaneSnapshot>) -> Seq<int>
    decreases s.len(),
{
    if s.len() == 0 {
        Seq::empty()
    } else {
        let k = managed_positions(s.drop_last());
        if s.last().managed_by_swarmux {
            k.push(s.len() - 1)
        } else {
            k
        }
    }
}

proof fn lemma_managed_positions_range(s: Seq<PaneSnapshot>)
    ensures
        forall|k: int|
            0 <= k < managed_positions(s).len() ==> 0 <= #[trigger] managed_positions(s)[k] < s.len(),
    decreases s.len(),
{
    if s.len() > 0 {
        lemma_managed_positions_range(s.drop_last());
        let k = managed_positions(s.drop_last());
        assert forall|i: int| 0 <= i < managed_positions(s).len() implies 0
            <= #[trigger] managed_positions(s)[i] < s.len() by {
            if i < k.len() {
                assert(managed_positions(s)[i] == k[i]);
            }
        }
    }
}

/// The pane that `panes jump --index index` focuses: the `index`-th pane
/// (counting from 1) among those that swarmux manages, for an index from 1
/// to 9.
pub fn jump_target(panes: &Vec<PaneSnapshot>, index: usize) -> (r: Result<PaneSnapshot, JumpError>)
    ensures
        !(1 <= index <= 9) ==> r == Err::<PaneSnapshot, JumpError>(JumpError::IndexOutOfRange),
        1 <= index <= 9 && index > managed_positions(panes@).len() ==> r == Err::<
            PaneSnapshot,
            JumpError,
        >(JumpError::NoManagedPane(index)),
        1 <= index <= 9 && index <= managed_positions(panes@).len() ==> (r matches Ok(p)
            && same_snapshot(p, panes@[managed_positions(panes@)[index - 1]])),
{
    if index < 1 || index > 9 {
        return Err(JumpError::IndexOutOfRange);
    }
    let mut seen: usize = 0;
    let mut i: usize = 0;
    while i < panes.len()
        invariant
            1 <= index <= 9,
            i <= panes.len(),
            seen == managed_positions(panes@.take(i as int)).len(),
            seen < index,
        decreases panes.len() - i,
    {
        proof {
            assert(panes@.take(i + 1).drop_last() =~= panes@.take(i as int));
        }
        if panes[i].managed_by_swarmux {
            seen += 1;
            if seen == index {
                proof {
                    lemma_managed_positions_prefix(panes@, i as int + 1);
                    assert(managed_positions(panes@.take(i + 1)).last() == i);
                }
                return Ok(panes[i].duplicate());
            }
        }
        i += 1;
    }
    proof {
        assert(panes@.take(panes@.len() as int) =~= panes@);
    }
    Err(JumpError::NoManagedPane(index))
}

proof fn lemma_managed_positions_prefix(s: Seq<PaneSnapshot>, i: int)
    requires
        0 <= i <= s.len(),
    ensures
        managed_positions(s.take(i)).is_prefix_of(managed_positions(s)),
    decreases s.len() - i,
{
    if i < s.len() {
        lemma_managed_positions_prefix(s, i + 1);
        assert(s.take(i + 1).drop_last() =~= s.take(i));
    } else {
        assert(s.take(i) =~= s);
    }
}

// ---------------------------------------------------------------------
// Building the pane list
// ---------------------------------------------------------------------

/// The task that runs in the session `name`: the last such task in
/// `tasks` (as a map from session to task built in order keeps it).
pub open spec fn task_for_session(tasks: Seq<TaskRecord>, name: Seq<char>) -> Option<TaskRecord>
    decreases tasks.len(),
{
    if tasks.len() == 0 {
        None
    } else if (match tasks.last().session {
        Some(s) => s@ == name,
        None => false,
    }) {
        Some(tasks.last())
    } else {
        task_for_session(tasks.drop_last(), name)
    }
}

/// The task that runs in the session `name`.
pub fn find_task_for_session<'a>(tasks: &'a Vec<TaskRecord>, name: &String) -> (r: Option<
    &'a TaskRecord,
>)
    ensures
        deref_task(r) == task_for_session(tasks@, name@),
{
    let mut i = tasks.len();
    proof {
        assert(tasks@.take(i as int) =~= tasks@);
    }
    while i > 0
        invariant
            i <= tasks.len(),
            task_for_session(tasks@, name@) == task_for_session(tasks@.take(i as int), name@),
        decreases i,
    {
        proof {
            assert(tasks@.take(i as int).drop_last() =~= tasks@.take(i - 1));
            assert(tasks@.take(i as int).last() == tasks@[i - 1]);
        }
        let hit = match &tasks[i - 1].session {
            Some(s) => *s == *name,
            None => false,
        };
        if hit {
            return Some(&tasks[i - 1]);
        }
        i -= 1;
    }
    None
}

pub open spec fn info_repo_root(info: Option<GitInfo>) -> Option<Seq<char>> {
    match info {
        Some(i) => Some(i.repo_root@),
        None => None,
    }
}

/// The repository of a pane: from git, else from its task.
pub open spec fn pane_repo(info: Option<GitInfo>, task: Option<TaskRecord>) -> Option<Seq<char>> {
    match info {
        Some(i) => Some(i.repo@),
        None => match task {
            Some(t) => Some(t.repo@),
            None => None,
        },
    }
}

/// The branch of a pane: git's, where it is not empty.
pub open spec fn pane_branch(info: Option<GitInfo>) -> Option<Seq<char>> {
    match info {
        Some(i) => match i.branch {
            Some(b) => if b@.len() > 0 {
                Some(b@)
            } else {
                None
            },
            None => None,
        },
        None => None,
    }
}

pub open spec fn pane_git(info: Option<GitInfo>) -> Option<PaneGitSummary> {
    match info {
        Some(i) => Some(i.summary),
        None => None,
    }
}

pub open spec fn git_label_opt(g: Option<PaneGitSummary>) -> Option<Seq<char>> {
    match g {
        Some(x) => Some(x.label@),
        None => None,
    }
}

/// `p` is the snapshot of the tmux pane `raw`, with the task of its
/// session, the git information `info` of its directory, and labels that
/// write `home` as `~`.
pub open spec fn snapshot_of(
    p: PaneSnapshot,
    raw: RawPane,
    tasks: Seq<TaskRecord>,
    info: Option<GitInfo>,
    current_pane: Option<Seq<char>>,
    home: Option<Seq<char>>,
) -> bool {
    let task = task_for_session(tasks, raw.session_name@);
    &&& p.current == (current_pane == Some(raw.pane_id@))
    &&& p.managed_by_swarmux == task is Some
    &&& p.session_name == raw.session_name
    &&& p.window_id == raw.window_id
    &&& p.window_index == raw.window_index
    &&& p.window_name == raw.window_name
    &&& p.pane_id == raw.pane_id
    &&& p.pane_index == raw.pane_index
    &&& p.pane_active == raw.pane_active
    &&& p.window_bell_flag == raw.window_bell_flag
    &&& p.pane_current_path == raw.pane_current_path
    &&& p.pane_current_command == raw.pane_current_command
    &&& p.pane_title == raw.pane_title
    &&& same_opt_task(p.task, task)
    &&& opt_seq(p.repo_root) == info_repo_root(info)
    &&& opt_seq(p.repo) == pane_repo(info, task)
    &&& opt_seq(p.branch) == pane_branch(info)
    &&& p.git == pane_git(info)
    &&& p.label@ == label_spec(
        raw.pane_current_command@,
        raw.pane_current_path@,
        task,
        pane_repo(info, task),
        pane_branch(info),
        git_label_opt(pane_git(info)),
        home,
    )
}

fn snapshot_from_raw(
    raw: &RawPane,
    tasks: &Vec<TaskRecord>,
    info: &Option<GitInfo>,
    current_pane: &Option<String>,
    home: Option<&str>,
) -> (p: PaneSnapshot)
    ensures
        snapshot_of(p, *raw, tasks@, *info, opt_seq(*current_pane), ref_seq(home)),
{
    let task = find_task_for_session(tasks, &raw.session_name);
    let current = match current_pane {
        Some(c) => *c == raw.pane_id,
        None => false,
    };
    let repo_root = match info {
        Some(i) => Some(i.repo_root.clone()),
        None => None,
    };
    let repo = match info {
        Some(i) => Some(i.repo.clone()),
        None => match task {
            Some(t) => Some(t.repo.clone()),
            None => None,
        },
    };
    let branch = match info {
        Some(i) => match &i.branch {
            Some(b) => if crate::text::chars_of(b.as_str()).len() > 0 {
                Some(b.clone())
            } else {
                None
            },
            None => None,
        },
        None => None,
    };
    let git = match info {
        Some(i) => Some(i.summary.duplicate()),
        None => None,
    };
    let repo_ref: Option<&str> = match &repo {
        Some(r) => Some(r.as_str()),
        None => None,
    };
    let branch_ref: Option<&str> = match &branch {
        Some(b) => Some(b.as_str()),
        None => None,
    };
    let git_ref: Option<&PaneGitSummary> = match &git {
        Some(g) => Some(g),
        None => None,
    };
    let label = build_label_with_home(raw, task, repo_ref, branch_ref, git_ref, home);
    let task_copy = match task {
        Some(t) => Some(t.duplicate()),
        None => None,
    };
    PaneSnapshot {
        current,
        managed_by_swarmux: task.is_some(),
        session_name: raw.session_name.clone(),
        window_id: raw.window_id.clone(),
        window_index: raw.window_index,
        window_name: raw.window_name.clone(),
        pane_id: raw.pane_id.clone(),
        pane_index: raw.pane_index,
        pane_active: raw.pane_active,
        window_bell_flag: raw.window_bell_flag,
        pane_current_path: raw.pane_current_path.clone(),
        pane_current_command: raw.pane_current_command.clone(),
        pane_title: raw.pane_title.clone(),
        task: task_copy,
        repo_root,
        repo,
        branch,
        git,
        label,
    }
}

/// `r` lists the snapshots in order of their sort keys; of two panes with
/// equivalent keys, the one that came first (by `idx`) stays first.
pub open spec fn sorted_stably(r: Seq<PaneSnapshot>, idx: Seq<usize>) -> bool {
    forall|a: int, b: int|
        #![trigger r[a], r[b]]
        0 <= a < b < r.len() ==> PaneSortKey::key_le(sort_key_of(r[a]), sort_key_of(r[b])) && (
        PaneSortKey::key_le(sort_key_of(r[b]), sort_key_of(r[a])) ==> idx[a] < idx[b])
}

/// In a sorted pane list the current pane comes first, and the panes of
/// tasks waiting for input come before all other panes but the current
/// one.
pub proof fn lemma_sorted_current_first(r: Seq<PaneSnapshot>, idx: Seq<usize>, k: int)
    requires
        sorted_stably(r, idx),
        0 <= k < r.len(),
    ensures
        r[k].current ==> r[0].current,
        forall|j: int|
            0 <= j < k && !r[k].current && !r[j].current && state_rank_spec(r[k].task) == 0
                ==> state_rank_spec(#[trigger] r[j].task) == 0,
{
    if k > 0 {
        assert(PaneSortKey::key_le(sort_key_of(r[0]), sort_key_of(r[k])));
        assert forall|j: int|
            0 <= j < k && !r[k].current && !r[j].current && state_rank_spec(r[k].task) == 0
                implies state_rank_spec(#[trigger] r[j].task) == 0 by {
            assert(PaneSortKey::key_le(sort_key_of(r[j]), sort_key_of(r[k])));
        }
    }
}

/// `r` is the pane list of `raws`: the snapshot of the pane `raws[idx[k]]`
/// at position `k`, in stable order of sort keys.
pub open spec fn pane_list_of(
    r: Seq<PaneSnapshot>,
    raws: Seq<RawPane>,
    tasks: Seq<TaskRecord>,
    infos: Seq<Option<GitInfo>>,
    current_pane: Option<Seq<char>>,
    idx: Seq<usize>,
    home: Option<Seq<char>>,
) -> bool {
    &&& is_index_perm(idx, raws.len())
    &&& r.len() == raws.len()
    &&& forall|k: int|
        0 <= k < r.len() ==> snapshot_of(
            #[trigger] r[k],
            raws[idx[k] as int],
            tasks,
            infos[idx[k] as int],
            current_pane,
            home,
        )
    &&& sorted_stably(r, idx)
}

/// The pane list: a snapshot of each tmux pane in `raw_panes`, where
/// `git_infos[i]` is the git information of the directory of pane `i`
/// (`None` outside a repository), and `current_pane` is the id of the pane
/// swarmux runs in. The list is sorted stably by [`pane_sort_key`].
pub fn assemble_panes(
    tasks: &Vec<TaskRecord>,
    raw_panes: &Vec<RawPane>,
    git_infos: &Vec<Option<GitInfo>>,
    current_pane: Option<String>,
) -> (r: Vec<PaneSnapshot>)
    requires
        git_infos@.len() == raw_panes@.len(),
    ensures
        exists|idx: Seq<usize>, home: Option<Seq<char>>|
            #[trigger] pane_list_of(
                r@,
                raw_panes@,
                tasks@,
                git_infos@,
                opt_seq(current_pane),
                idx,
                home,
            ),
{
    let home_text = crate::config::home_dir_text();
    let home: Option<&str> = match &home_text {
        Some(h) => Some(h.as_str()),
        None => None,
    };
    let ghost cur = opt_seq(current_pane);
    let r = assemble_panes_with_home(tasks, raw_panes, git_infos, current_pane, home);
    let ghost idx = choose|idx: Seq<usize>|
        pane_list_of(r@, raw_panes@, tasks@, git_infos@, cur, idx, ref_seq(home));
    assert(pane_list_of(r@, raw_panes@, tasks@, git_infos@, cur, idx, ref_seq(home)));
    r
}

/// The pane list as [`assemble_panes`] builds it, with `home` as the home
/// directory that labels write as `~`.
pub fn assemble_panes_with_home(
    tasks: &Vec<TaskRecord>,
    raw_panes: &Vec<RawPane>,
    git_infos: &Vec<Option<GitInfo>>,
    current_pane: Option<String>,
    home: Option<&str>,
) -> (r: Vec<PaneSnapshot>)
    requires
        git_infos@.len() == raw_panes@.len(),
    ensures
        exists|idx: Seq<usize>|
            #[trigger] pane_list_of(
                r@,
                raw_panes@,
                tasks@,
                git_infos@,
                opt_seq(current_pane),
                idx,
                ref_seq(home),
            ),
{
    let ghost raws = raw_panes@;
    let ghost infos = git_infos@;
    let n = raw_panes.len();
    let mut built: Vec<PaneSnapshot> = Vec::new();
    let mut keys: Vec<PaneSortKey> = Vec::new();
    let mut i: usize = 0;
    while i < n
        invariant
            n == raws.len() == infos.len(),
            raws == raw_panes@,
            infos == git_infos@,
            i <= n,
            built@.len() == i,
            keys@.len() == i,
            forall|k: int|
                0 <= k < i ==> snapshot_of(
                    #[trigger] built@[k],
                    raws[k],
                    tasks@,
                    infos[k],
                    opt_seq(current_pane),
                    ref_seq(home),
                ),
            forall|k: int| 0 <= k < i ==> #[trigger] keys@[k] == sort_key_of(built@[k]),
        decreases n - i,
    {
        let snap = snapshot_from_raw(&raw_panes[i], tasks, &git_infos[i], &current_pane, home);
        keys.push(pane_sort_key(&snap));
        built.push(snap);
        i += 1;
    }
    let idx = stable_order(&keys);
    let mut out: Vec<PaneSnapshot> = Vec::new();
    let mut k: usize = 0;
    while k < n
        invariant
            n == raws.len() == infos.len() == built@.len() == keys@.len(),
            is_index_perm(idx@, n as nat),
            stably_sorted(keys@, idx@),
            forall|j: int| 0 <= j < n ==> #[trigger] keys@[j] == sort_key_of(built@[j]),
            forall|j: int|
                0 <= j < n ==> snapshot_of(
                    #[trigger] built@[j],
                    raws[j],
                    tasks@,
                    infos[j],
                    opt_seq(current_pane),
                    ref_seq(home),
                ),
            k <= n,
            out@.len() == k,
            forall|j: int| 0 <= j < k ==> same_snapshot(#[trigger] out@[j], built@[idx@[j] as int]),
        decreases n - k,
    {
        out.push(built[idx[k]].duplicate());
        k += 1;
    }
    proof {
        assert forall|a: int| 0 <= a < n implies snapshot_of(
            #[trigger] out@[a],
            raws[idx@[a] as int],
            tasks@,
            infos[idx@[a] as int],
            opt_seq(current_pane),
            ref_seq(home),
        ) && sort_key_of(out@[a]) == keys@[idx@[a] as int] by {
            let j = idx@[a] as int;
            assert(snapshot_of(built@[j], raws[j], tasks@, infos[j], opt_seq(current_pane), ref_seq(home)));
            assert(keys@[j] == sort_key_of(built@[j]));
        }
        assert forall|a: int, b: int| 0 <= a < b < out@.len() implies PaneSortKey::key_le(
            sort_key_of(#[trigger] out@[a]),
            sort_key_of(#[trigger] out@[b]),
        ) && (PaneSortKey::key_le(sort_key_of(out@[b]), sort_key_of(out@[a])) ==> idx@[a]
            < idx@[b]) by {
            assert(sort_key_of(out@[a]) == keys@[idx@[a] as int]);
            assert(sort_key_of(out@[b]) == keys@[idx@[b] as int]);
        }
        assert(sorted_stably(out@, idx@));
        assert(pane_list_of(out@, raws, tasks@, infos, opt_seq(current_pane), idx@, ref_seq(home)));
    }
    out
}

} // verus!
