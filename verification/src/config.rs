//! Configuration: where swarmux keeps its state, which task backend it uses,
//! and the settings read from `config.toml`.
use crate::text::{append_chars, append_str, chars_of, from_chars, trim, trim_chars};
use vstd::string::StringSliceAdditionalSpecFns;
use std::collections::BTreeMap;
use vstd::prelude::*;

verus! {

#[derive(Debug, Clone, Copy, PartialEq, Eq, Structural)]
pub enum BackendKind {
    Files,
    Beads,
}

/// Paths are held as their bytes, as Unix holds them.
#[derive(Debug, Clone)]
pub struct AppConfig {
    pub home: Vec<u8>,
    pub config_home: Vec<u8>,
    pub backend: BackendKind,
    pub settings: FileConfig,
}

#[derive(Debug, Clone)]
pub struct PathsInfo {
    pub home: String,
    pub backend: String,
    pub tasks_dir: String,
    pub logs_dir: String,
    pub locks_dir: String,
    pub config_dir: String,
    pub events_file: String,
    pub notify_file: String,
    pub config_file: String,
}

#[derive(Debug, Clone)]
pub struct FileConfig {
    pub home: Option<Vec<u8>>,
    pub backend: Option<String>,
    pub tmux: TmuxConfig,
    pub ui: UiConfig,
    pub connected: ConnectedConfig,
    pub agents: BTreeMap<String, AgentConfig>,
}

#[derive(Debug, Clone)]
pub struct TmuxConfig {
    pub session_ignore: Vec<String>,
}

#[derive(Debug, Clone, Copy)]
pub struct UiConfig {
    pub pane_switcher_highlight: PaneSwitcherHighlight,
    pub pane_switcher_show_arrow: bool,
    pub pane_switcher_current_session_only: bool,
    pub pane_switcher_sidebar_current_session_only: bool,
    pub pane_switcher_sidebar_show_session: bool,
}

#[derive(Debug, Clone, Copy, PartialEq, Eq, Structural)]
pub enum PaneSwitcherHighlight {
    Solid,
    Underline,
}

#[derive(Debug, Clone)]
pub struct ConnectedConfig {
    pub command: Vec<String>,
    pub agent: Option<String>,
    pub runtime: TaskRuntime,
}

#[derive(Debug, Clone)]
pub struct AgentConfig {
    pub command: Vec<String>,
}

#[derive(Debug, Clone, Copy, PartialEq, Eq, Structural)]
pub enum TaskRuntime {
    Headless,
    Mirrored,
    Tui,
}

impl Default for PaneSwitcherHighlight {
    fn default() -> (r: Self)
        ensures
            r == PaneSwitcherHighlight::Underline,
    {
        PaneSwitcherHighlight::Underline
    }
}

impl Default for TaskRuntime {
    fn default() -> (r: Self)
        ensures
            r == TaskRuntime::Headless,
    {
        TaskRuntime::Headless
    }
}

impl Default for TmuxConfig {
    fn default() -> (r: Self)
        ensures
            r.session_ignore@.len() == 0,
    {
        TmuxConfig { session_ignore: Vec::new() }
    }
}

impl Default for UiConfig {
    fn default() -> (r: Self)
        ensures
            r.pane_switcher_highlight == PaneSwitcherHighlight::Underline,
            !r.pane_switcher_show_arrow,
            !r.pane_switcher_current_session_only,
            !r.pane_switcher_sidebar_current_session_only,
            !r.pane_switcher_sidebar_show_session,
    {
        UiConfig {
            pane_switcher_highlight: PaneSwitcherHighlight::Underline,
            pane_switcher_show_arrow: false,
            pane_switcher_current_session_only: false,
            pane_switcher_sidebar_current_session_only: false,
            pane_switcher_sidebar_show_session: false,
        }
    }
}

impl Default for ConnectedConfig {
    fn default() -> (r: Self)
        ensures
            r.command@.len() == 0,
            r.agent is None,
            r.runtime == TaskRuntime::Headless,
    {
        ConnectedConfig { command: Vec::new(), agent: None, runtime: TaskRuntime::Headless }
    }
}

impl Default for AgentConfig {
    fn default() -> (r: Self)
        ensures
            r.command@.len() == 0,
    {
        AgentConfig { command: Vec::new() }
    }
}

impl Default for FileConfig {
    fn default() -> (r: Self)
        ensures
            r.home is None,
            r.backend is None,
            r.tmux.session_ignore@.len() == 0,
            r.ui.pane_switcher_highlight == PaneSwitcherHighlight::Underline,
            !r.ui.pane_switcher_show_arrow,
            r.connected.command@.len() == 0,
            r.connected.agent is None,
            r.connected.runtime == TaskRuntime::Headless,
            r.agents@.len() == 0,
    {
        FileConfig {
            home: None,
            backend: None,
            tmux: TmuxConfig::default(),
            ui: UiConfig::default(),
            connected: ConnectedConfig::default(),
            agents: BTreeMap::new(),
        }
    }
}

/// Errors in reading the configuration.
#[derive(Debug, Clone)]
pub enum ConfigError {
    /// A backend name other than `files` or `beads`; it holds the name.
    InvalidBackend(String),
}

// ---------------------------------------------------------------------
// Paths
// ---------------------------------------------------------------------

/// `PathBuf::join` of a relative part on Unix: the part follows `base`,
/// with a `/` between them unless `base` is empty or already ends in one.
pub open spec fn join_path(base: Seq<u8>, part: Seq<u8>) -> Seq<u8> {
    if base.len() == 0 {
        part
    } else if base.last() == 47u8 {
        base + part
    } else {
        base.push(47u8) + part
    }
}

/// The UTF-8 bytes of a path written as text.
pub open spec fn text_bytes(s: &str) -> Seq<u8> {
    s.spec_bytes()
}

/// `base` joined with the relative path `part`.
pub fn join(base: &Vec<u8>, part: &str) -> (r: Vec<u8>)
    ensures
        r@ == join_path(base@, text_bytes(part)),
{
    let mut v = base.clone();
    assert(v@ == base@);
    if v.len() > 0 && v[v.len() - 1] != 47u8 {
        v.push(47u8);
    }
    let p = part.as_bytes();
    let mut i: usize = 0;
    let ghost start = v@;
    while i < p.len()
        invariant
            i <= p@.len(),
            v@ == start + p@.take(i as int),
        decreases p@.len() - i,
    {
        v.push(p[i]);
        proof {
            assert(p@.take(i + 1) =~= p@.take(i as int).push(p@[i as int]));
        }
        i += 1;
    }
    proof {
        assert(p@.take(p@.len() as int) =~= p@);
    }
    v
}

/// What Unix paths display as: their bytes read as UTF-8, each invalid
/// sequence replaced by U+FFFD (`String::from_utf8_lossy`).
pub uninterp spec fn utf8_lossy(bytes: Seq<u8>) -> Seq<char>;

/// The text of a path's bytes (`String::from_utf8_lossy`), which is the
/// name [`utf8_lossy`] of the bytes.
#[verifier::external_body]
pub(crate) fn lossy_text(bytes: &Vec<u8>) -> (r: String)
    ensures
        r@ == utf8_lossy(bytes@),
{
    String::from_utf8_lossy(bytes.as_slice()).into_owned()
}

impl AppConfig {
    pub fn tasks_dir(&self) -> (r: Vec<u8>)
        ensures
            r@ == join_path(self.home@, text_bytes("tasks")),
    {
        join(&self.home, "tasks")
    }

    pub fn logs_dir(&self) -> (r: Vec<u8>)
        ensures
            r@ == join_path(self.home@, text_bytes("logs")),
    {
        join(&self.home, "logs")
    }

    pub fn locks_dir(&self) -> (r: Vec<u8>)
        ensures
            r@ == join_path(self.home@, text_bytes("locks")),
    {
        join(&self.home, "locks")
    }

    pub fn config_dir(&self) -> (r: Vec<u8>)
        ensures
            r@ == join_path(self.config_home@, text_bytes("swarmux")),
    {
        join(&self.config_home, "swarmux")
    }

    pub fn events_file(&self) -> (r: Vec<u8>)
        ensures
            r@ == join_path(self.home@, text_bytes("events.jsonl")),
    {
        join(&self.home, "events.jsonl")
    }

    pub fn notify_file(&self) -> (r: Vec<u8>)
        ensures
            r@ == join_path(self.home@, text_bytes("notify.json")),
    {
        join(&self.home, "notify.json")
    }

    pub fn config_file(&self) -> (r: Vec<u8>)
        ensures
            r@ == join_path(join_path(self.config_home@, text_bytes("swarmux")), text_bytes("config.toml")),
    {
        let dir = self.config_dir();
        join(&dir, "config.toml")
    }

    /// The paths as text, each displayed as its bytes read as UTF-8.
    pub fn paths_info(&self) -> (r: PathsInfo)
        ensures
            r.home@ == utf8_lossy(self.home@),
            r.backend@ == backend_name(self.backend),
            r.tasks_dir@ == utf8_lossy(join_path(self.home@, text_bytes("tasks"))),
            r.logs_dir@ == utf8_lossy(join_path(self.home@, text_bytes("logs"))),
            r.locks_dir@ == utf8_lossy(join_path(self.home@, text_bytes("locks"))),
            r.config_dir@ == utf8_lossy(join_path(self.config_home@, text_bytes("swarmux"))),
            r.events_file@ == utf8_lossy(join_path(self.home@, text_bytes("events.jsonl"))),
            r.notify_file@ == utf8_lossy(join_path(self.home@, text_bytes("notify.json"))),
            r.config_file@ == utf8_lossy(
                join_path(join_path(self.config_home@, text_bytes("swarmux")), text_bytes("config.toml")),
            ),
    {
        PathsInfo {
            home: lossy_text(&self.home),
            backend: match self.backend {
                BackendKind::Files => String::from_str("files"),
                BackendKind::Beads => String::from_str("beads"),
            },
            tasks_dir: lossy_text(&self.tasks_dir()),
            logs_dir: lossy_text(&self.logs_dir()),
            locks_dir: lossy_text(&self.locks_dir()),
            config_dir: lossy_text(&self.config_dir()),
            events_file: lossy_text(&self.events_file()),
            notify_file: lossy_text(&self.notify_file()),
            config_file: lossy_text(&self.config_file()),
        }
    }
}

/// The name under which a backend is configured.
pub open spec fn backend_name(b: BackendKind) -> Seq<char> {
    match b {
        BackendKind::Files => "files"@,
        BackendKind::Beads => "beads"@,
    }
}

/// Reads a backend name: `files` or `beads`.
pub fn parse_backend_kind(raw: &str) -> (r: Result<BackendKind, ConfigError>)
    ensures
        raw@ == "files"@ ==> r == Ok::<BackendKind, ConfigError>(BackendKind::Files),
        raw@ == "beads"@ ==> r == Ok::<BackendKind, ConfigError>(BackendKind::Beads),
        raw@ != "files"@ && raw@ != "beads"@ ==> (r matches Err(ConfigError::InvalidBackend(
            name,
        )) && name@ == raw@),
{
    let v = chars_of(raw);
    proof {
        reveal_strlit("files");
        reveal_strlit("beads");
        assert("files"@[0] != "beads"@[0]);
    }
    if crate::text::chars_eq_str(&v, "files") {
        Ok(BackendKind::Files)
    } else if crate::text::chars_eq_str(&v, "beads") {
        Ok(BackendKind::Beads)
    } else {
        Err(ConfigError::InvalidBackend(String::from_str(raw)))
    }
}

/// The state directory: `$XDG_STATE_HOME/swarmux` when that variable is set,
/// else `~/.local/state/swarmux` when the home directory is known.
pub open spec fn state_home_from(xdg: Option<Seq<u8>>, home: Option<Seq<u8>>) -> Option<Seq<u8>> {
    match xdg {
        Some(x) => Some(join_path(x, text_bytes("swarmux"))),
        None => match home {
            Some(h) => Some(
                join_path(
                    join_path(join_path(h, text_bytes(".local")), text_bytes("state")),
                    text_bytes("swarmux"),
                ),
            ),
            None => None,
        },
    }
}

pub open spec fn opt_view(o: Option<String>) -> Option<Seq<char>> {
    match o {
        Some(s) => Some(s@),
        None => None,
    }
}

pub open spec fn opt_bytes(o: Option<Vec<u8>>) -> Option<Seq<u8>> {
    match o {
        Some(v) => Some(v@),
        None => None,
    }
}

/// The user's home directory as `dirs::home_dir` reports it, as the bytes
/// of the path. It comes from the environment and the user database, so
/// nothing is claimed of it.
#[verifier::external_body]
pub(crate) fn home_dir_bytes() -> Option<Vec<u8>> {
    dirs::home_dir().map(|p| p.into_os_string().into_encoded_bytes())
}

/// The home directory as text, as paths display: its bytes read as UTF-8.
pub(crate) fn home_dir_text() -> (r: Option<String>)
    ensures
        r matches Some(t) ==> exists|h: Seq<u8>| t@ == utf8_lossy(h),
{
    match home_dir_bytes() {
        Some(h) => Some(lossy_text(&h)),
        None => None,
    }
}

/// The platform's configuration directory as `dirs::config_dir` reports
/// it, as the bytes of the path. It comes from the environment, so nothing
/// is claimed of it.
#[verifier::external_body]
fn config_dir_bytes() -> Option<Vec<u8>> {
    dirs::config_dir().map(|p| p.into_os_string().into_encoded_bytes())
}

/// The default directory for configuration, where the platform has one.
pub fn default_config_home() -> Option<Vec<u8>> {
    config_dir_bytes()
}

/// The default state directory, given the value of `XDG_STATE_HOME`.
pub fn default_state_home(xdg_state_home: Option<Vec<u8>>) -> (r: Option<Vec<u8>>)
    ensures
        xdg_state_home is Some ==> opt_bytes(r) == state_home_from(opt_bytes(xdg_state_home), None),
        xdg_state_home is None ==> (r is None || exists|h: Seq<u8>|
            opt_bytes(r) == state_home_from(None, Some(h))),
{
    match xdg_state_home {
        Some(x) => Some(join(&x, "swarmux")),
        None => {
            let home = home_dir_bytes();
            match home {
                Some(h) => {
                    let r = state_home_with(&h);
                    Some(r)
                },
                None => None,
            }
        },
    }
}

fn state_home_with(h: &Vec<u8>) -> (r: Vec<u8>)
    ensures
        Some(r@) == state_home_from(None, Some(h@)),
{
    let a = join(h, ".local");
    let b = join(&a, "state");
    join(&b, "swarmux")
}

/// The configuration that the environment, the config file and the platform
/// defaults give together: each value from the first of these that has it.
pub open spec fn resolved_config_home(env: Option<Seq<u8>>, default: Option<Seq<u8>>) -> Seq<u8> {
    match env {
        Some(e) => e,
        None => match default {
            Some(d) => d,
            None => text_bytes(".config"),
        },
    }
}

pub open spec fn resolved_home(env: Option<Seq<u8>>, file: Option<Seq<u8>>, default: Option<Seq<u8>>) -> Seq<u8> {
    match env {
        Some(e) => e,
        None => match file {
            Some(f) => f,
            None => match default {
                Some(d) => d,
                None => text_bytes(".swarmux"),
            },
        },
    }
}

/// The backend name in effect, if any is given.
pub open spec fn backend_source(env: Option<Seq<char>>, file: Option<Seq<char>>) -> Option<
    Seq<char>,
> {
    match env {
        Some(e) => Some(e),
        None => file,
    }
}

pub open spec fn backend_from_name(name: Seq<char>) -> Option<BackendKind> {
    if name == "files"@ {
        Some(BackendKind::Files)
    } else if name == "beads"@ {
        Some(BackendKind::Beads)
    } else {
        None
    }
}

/// The bytes of `s`.
fn bytes_of(s: &str) -> (r: Vec<u8>)
    ensures
        r@ == text_bytes(s),
{
    join(&Vec::new(), s)
}

/// Assembles the application configuration. `env_*` are the values of
/// `SWARMUX_CONFIG_HOME`, `SWARMUX_HOME` and `SWARMUX_BACKEND`; the
/// defaults are the platform directories.
pub fn resolve_app_config(
    env_config_home: Option<Vec<u8>>,
    default_config_home: Option<Vec<u8>>,
    settings: FileConfig,
    env_home: Option<Vec<u8>>,
    default_state_home: Option<Vec<u8>>,
    env_backend: Option<String>,
) -> (r: Result<AppConfig, ConfigError>)
    ensures
        ({
            let name = backend_source(opt_view(env_backend), opt_view(settings.backend));
            match r {
                Ok(c) => {
                    &&& c.config_home@ == resolved_config_home(
                        opt_bytes(env_config_home),
                        opt_bytes(default_config_home),
                    )
                    &&& c.home@ == resolved_home(
                        opt_bytes(env_home),
                        opt_bytes(settings.home),
                        opt_bytes(default_state_home),
                    )
                    &&& c.backend == match name {
                        Some(n) => backend_from_name(n)->0,
                        None => BackendKind::Files,
                    }
                    &&& c.settings == settings
                    &&& (name matches Some(n) ==> backend_from_name(n) is Some)
                },
                Err(ConfigError::InvalidBackend(bad)) => name == Some(bad@) && backend_from_name(
                    bad@,
                ) is None,
            }
        }),
{
    let config_home = match env_config_home {
        Some(e) => e,
        None => match default_config_home {
            Some(d) => d,
            None => bytes_of(".config"),
        },
    };
    let home = match env_home {
        Some(e) => e,
        None => match &settings.home {
            Some(f) => f.clone(),
            None => match default_state_home {
                Some(d) => d,
                None => bytes_of(".swarmux"),
            },
        },
    };
    let backend = match &env_backend {
        Some(value) => parse_backend_kind(value.as_str()),
        None => match &settings.backend {
            Some(value) => parse_backend_kind(value.as_str()),
            None => Ok(BackendKind::Files),
        },
    };
    match backend {
        Ok(backend) => Ok(AppConfig { home, config_home, backend, settings }),
        Err(e) => Err(e),
    }
}

// ---------------------------------------------------------------------
// tmux session filter
// ---------------------------------------------------------------------

/// The trimmed patterns that are not blank, in order.
pub open spec fn kept_patterns(ps: Seq<Seq<char>>) -> Seq<Seq<char>>
    decreases ps.len(),
{
    if ps.len() == 0 {
        Seq::empty()
    } else {
        let k = kept_patterns(ps.drop_last());
        if trim(ps.last()).len() > 0 {
            k.push(trim(ps.last()))
        } else {
            k
        }
    }
}

/// The tmux format clause that is true for sessions whose name does not
/// match the pattern `p`.
pub open spec fn ignore_clause(p: Seq<char>) -> Seq<char> {
    "#{!=:#{m:"@ + p + ",#{session_name}},1}"@
}

/// The conjunction of the clauses for `ps`, folded from the left; `1`
/// (always true) when there are none.
pub open spec fn filter_expr(ps: Seq<Seq<char>>) -> Seq<char>
    decreases ps.len(),
{
    if ps.len() == 0 {
        "1"@
    } else if ps.len() == 1 {
        ignore_clause(ps[0])
    } else {
        "#{&&:"@ + filter_expr(ps.drop_last()) + ","@ + ignore_clause(ps.last()) + "}"@
    }
}

pub open spec fn views(v: Seq<String>) -> Seq<Seq<char>> {
    v.map_values(|s: String| s@)
}

/// The tmux filter that hides the sessions matching any of `patterns`.
pub fn tmux_session_ignore_filter(patterns: &Vec<String>) -> (r: String)
    ensures
        r@ == filter_expr(kept_patterns(views(patterns@))),
{
    let mut expr: Vec<char> = Vec::new();
    let mut count: usize = 0;
    let ghost mut kept: Seq<Seq<char>> = Seq::empty();
    for i in 0..patterns.len()
        invariant
            kept == kept_patterns(views(patterns@).take(i as int)),
            count == kept.len(),
            count <= i,
            count > 0 ==> expr@ == filter_expr(kept),
    {
        proof {
            assert(views(patterns@).take(i + 1).drop_last() =~= views(patterns@).take(i as int));
        }
        let raw = chars_of(patterns[i].as_str());
        let t = trim_chars(&raw);
        if t.len() > 0 {
            let mut clause: Vec<char> = Vec::new();
            append_str(&mut clause, "#{!=:#{m:");
            append_chars(&mut clause, &t);
            append_str(&mut clause, ",#{session_name}},1}");
            if count == 0 {
                expr = clause;
            } else {
                let mut next: Vec<char> = Vec::new();
                append_str(&mut next, "#{&&:");
                append_chars(&mut next, &expr);
                append_str(&mut next, ",");
                append_chars(&mut next, &clause);
                append_str(&mut next, "}");
                expr = next;
            }
            proof {
                kept = kept.push(t@);
                assert(kept.drop_last() =~= kept_patterns(views(patterns@).take(i as int)));
            }
            count = count + 1;
        }
    }
    proof {
        assert(views(patterns@).take(patterns@.len() as int) =~= views(patterns@));
    }
    if count == 0 {
        String::from_str("1")
    } else {
        from_chars(&expr)
    }
}

impl TmuxConfig {
    pub fn ignore_filter(&self) -> (r: String)
        ensures
            r@ == filter_expr(kept_patterns(views(self.session_ignore@))),
    {
        tmux_session_ignore_filter(&self.session_ignore)
    }
}

/// With no pattern that is more than whitespace, the filter is `1`, which
/// keeps every session; otherwise it is a real condition.
pub proof fn lemma_filter_true_iff_no_patterns(ps: Seq<Seq<char>>)
    ensures
        (filter_expr(kept_patterns(ps)) == "1"@) == (kept_patterns(ps).len() == 0),
{
    reveal_strlit("1");
    reveal_strlit("#{!=:#{m:");
    reveal_strlit("#{&&:");
    let k = kept_patterns(ps);
    if k.len() == 1 {
        assert(filter_expr(k).len() > 1);
    } else if k.len() > 1 {
        assert(filter_expr(k).len() > 1);
    }
}

/// A pattern list keeps a pattern exactly when some entry is not blank.
pub proof fn lemma_kept_patterns_empty(ps: Seq<Seq<char>>)
    ensures
        (kept_patterns(ps).len() == 0) == (forall|i: int|
            0 <= i < ps.len() ==> trim(#[trigger] ps[i]).len() == 0),
    decreases ps.len(),
{
    if ps.len() > 0 {
        lemma_kept_patterns_empty(ps.drop_last());
        assert forall|i: int| 0 <= i < ps.drop_last().len() implies #[trigger] ps.drop_last()[i]
            == ps[i] by {}
        if kept_patterns(ps).len() == 0 {
            assert forall|i: int| 0 <= i < ps.len() implies trim(#[trigger] ps[i]).len() == 0 by {
                if i < ps.len() - 1 {
                    assert(ps.drop_last()[i] == ps[i]);
                }
            }
        }
    }
}

} // verus!
