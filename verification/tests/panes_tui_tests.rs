use swarmux::config::{PaneSwitcherHighlight, TaskRuntime};
use swarmux::keys::{Key, KeyPress};
use swarmux::model::{Moment, TaskMode, TaskRecord, TaskState};
use swarmux::panes::{sidebar_child_args, PaneGitSummary, PaneSnapshot};
use swarmux::panes_tui::{filter_rows, HydrationUpdate, PaneEntry, PaneSwitcherState};
use swarmux::panes_tui_detail::{footer_line, git_summary_spans, header_summary_line};
use swarmux::panes_tui_render::{handle_key, resolve_current_pane_id, KeyAction};
use swarmux::style::{accent, good, muted, red, warn, StyledLine};

fn task(id: &str, title: &str, branch: Option<&str>) -> TaskRecord {
    TaskRecord {
        id: id.to_string(),
        title: title.to_string(),
        repo: "core".to_string(),
        repo_root: "/tmp/core".to_string(),
        mode: TaskMode::Manual,
        runtime: TaskRuntime::Tui,
        branch: branch.map(str::to_string),
        worktree: None,
        session: Some(format!("session-{id}")),
        command: vec!["echo".to_string(), title.to_string()],
        priority: 0,
        external_ref: None,
        origin: None,
        state: TaskState::Running,
        reason: "running".to_string(),
        last_error: None,
        log_file: "/tmp/core/log".to_string(),
        created_at: Moment::new(1_700_000_000, 0).unwrap(),
        updated_at: Moment::new(1_700_000_000, 0).unwrap(),
        finished_at: None,
    }
}

fn snapshot(pane_id: &str, session_name: &str, current: bool, task: Option<TaskRecord>) -> PaneSnapshot {
    PaneSnapshot {
        current,
        managed_by_swarmux: task.is_some(),
        session_name: session_name.to_string(),
        window_id: "@1".to_string(),
        window_index: 1,
        window_name: "shell".to_string(),
        pane_id: pane_id.to_string(),
        pane_index: 1,
        pane_active: true,
        window_bell_flag: false,
        pane_current_path: "/tmp/core".to_string(),
        pane_current_command: "bash".to_string(),
        pane_title: "shell".to_string(),
        task,
        repo_root: Some("/tmp/core".to_string()),
        repo: Some("core".to_string()),
        branch: Some("main".to_string()),
        git: None,
        label: "initial".to_string(),
    }
}

fn entry(pane_id: &str, session_name: &str, current: bool, task: Option<TaskRecord>) -> PaneEntry {
    PaneEntry {
        snapshot: snapshot(pane_id, session_name, current, task),
        metadata_loaded: false,
    }
}

fn plain_entry(name: &str) -> PaneEntry {
    PaneEntry {
        snapshot: PaneSnapshot {
            current: false,
            managed_by_swarmux: false,
            session_name: name.to_string(),
            window_id: "@1".to_string(),
            window_index: 0,
            window_name: "window".to_string(),
            pane_id: format!("%{name}"),
            pane_index: 0,
            pane_active: true,
            window_bell_flag: false,
            pane_current_path: "/tmp".to_string(),
            pane_current_command: "bash".to_string(),
            pane_title: "pane".to_string(),
            task: None,
            repo_root: None,
            repo: None,
            branch: None,
            git: None,
            label: String::new(),
        },
        metadata_loaded: false,
    }
}

fn make_state(rows: Vec<PaneEntry>) -> PaneSwitcherState {
    PaneSwitcherState {
        all_rows: rows.clone(),
        rows,
        selected: 0,
        loaded_count: 0,
        current_session_only: false,
        current_session_name: None,
    }
}

fn press(key: Key) -> KeyPress {
    KeyPress { key, ctrl: false }
}

fn line_text(line: &StyledLine) -> String {
    line.spans.iter().map(|span| span.content.clone()).collect::<Vec<_>>().join("")
}

#[test]
fn sidebar_launcher_uses_plain_tui_invocation() {
    assert_eq!(
        sidebar_child_args("%79"),
        vec!["panes", "switch", "--tui-sidebar", "--pane-id", "%79",]
    );
}

#[test]
fn initial_selection_prefers_explicit_source_then_current_row() {
    let state = PaneSwitcherState {
        all_rows: vec![
            entry("%1", "alpha", false, None),
            entry("%2", "beta", true, Some(task("b", "beta", Some("main")))),
        ],
        rows: vec![
            entry("%1", "alpha", false, None),
            entry("%2", "beta", true, Some(task("b", "beta", Some("main")))),
        ],
        selected: 0,
        loaded_count: 0,
        current_session_only: false,
        current_session_name: None,
    };

    assert_eq!(state.initial_selected(Some("%2")), 1);
    assert_eq!(state.initial_selected(None), 1);
}

#[test]
fn hydration_updates_label_and_loaded_count() {
    let mut state = PaneSwitcherState {
        all_rows: vec![entry("%1", "alpha", true, Some(task("a", "alpha", Some("main"))))],
        rows: vec![entry("%1", "alpha", true, Some(task("a", "alpha", Some("main"))))],
        selected: 0,
        loaded_count: 0,
        current_session_only: false,
        current_session_name: None,
    };
    let updated = state.apply_update(HydrationUpdate::PaneGit {
        pane_id: "%1".to_string(),
        git: Some(PaneGitSummary {
            dirty: true,
            changed_files: 1,
            deleted_files: 0,
            untracked_files: 2,
            insertions: 3,
            deletions: 4,
            label: "chg1 new2 +3/-4".to_string(),
        }),
    });

    assert!(updated);
    assert_eq!(state.loaded_count, 1);
    assert!(state.rows[0].metadata_loaded);
    assert!(state.rows[0].snapshot.label.contains("chg1 new2 +3/-4"));
}

#[test]
fn selected_target_clamps_empty_state() {
    let state = PaneSwitcherState {
        all_rows: Vec::new(),
        rows: Vec::new(),
        selected: 3,
        loaded_count: 0,
        current_session_only: false,
        current_session_name: None,
    };

    assert_eq!(state.clamp_selected(3), 0);
}

#[test]
fn filter_rows_keeps_only_current_session_when_enabled() {
    let current = entry("%1", "current", true, None);
    let other = entry("%2", "other", false, None);

    let rows = filter_rows(&vec![current.clone(), other], true, &Some("current".to_string()));

    assert_eq!(rows.len(), 1);
    assert_eq!(rows[0].snapshot.session_name, "current");
}

#[test]
fn git_summary_spans_colorize_the_summary_tokens() {
    let spans = git_summary_spans("chg2 del1 new4 +12/-3", true);

    assert_eq!(
        spans.iter().map(|span| span.content.as_str()).collect::<Vec<_>>(),
        vec!["chg2", " ", "del1", " ", "new4", " ", "+12/-3"]
    );
    assert_eq!(spans[0].style.fg, Some(warn()));
    assert_eq!(spans[2].style.fg, Some(red()));
    assert_eq!(spans[4].style.fg, Some(good()));
    assert_eq!(spans[6].style.fg, Some(muted()));
}

#[test]
fn header_summary_line_contains_expected_fields() {
    let mut snap = snapshot("%1", "session-a", true, Some(task("a", "Implement selection", Some("main"))));
    snap.branch = Some("master".to_string());
    snap.git = Some(PaneGitSummary {
        dirty: true,
        changed_files: 2,
        deleted_files: 1,
        untracked_files: 4,
        insertions: 12,
        deletions: 3,
        label: "chg2 del1 new4 +12/-3".to_string(),
    });

    let text = line_text(&header_summary_line(Some(&snap), "ready"));

    assert!(text.contains("state ready"));
    assert!(text.contains("repo core@master"));
    assert!(text.contains("git chg2 del1 new4 +12/-3"));
    assert!(text.contains("task running"));
}

#[test]
fn header_summary_line_handles_empty_state() {
    let text = line_text(&header_summary_line(None, "empty"));

    assert!(text.contains("state empty"));
    assert!(text.contains("repo n/a"));
    assert!(text.contains("git n/a"));
    assert!(text.contains("task unmanaged"));
}

#[test]
fn footer_line_contains_merged_help() {
    let text = line_text(&footer_line());

    assert!(text.contains("j/k"));
    assert!(text.contains("moves"));
    assert!(text.contains("enter activates the selected pane"));
    assert!(text.contains("Esc or q quits"));
}

#[test]
fn resolve_current_pane_id_prefers_source_then_tmux() {
    assert_eq!(
        resolve_current_pane_id(Some("%source"), Some("%tmux".to_string())).as_deref(),
        Some("%source")
    );
    assert_eq!(
        resolve_current_pane_id(None, Some("%tmux".to_string())).as_deref(),
        Some("%tmux")
    );
    assert_eq!(resolve_current_pane_id(None, None), None);
}

#[test]
fn handle_key_wraps_down_from_last_row_to_first() {
    let mut state = make_state(vec![plain_entry("a"), plain_entry("b"), plain_entry("c")]);
    state.selected = 2;
    let mut selected = 2;

    let action = handle_key(press(Key::Char('j')), &mut state, &mut selected);

    assert!(matches!(action, KeyAction::Nothing));
    assert_eq!(selected, 0);
    assert_eq!(state.selected, 0);
}

#[test]
fn handle_key_wraps_up_from_first_row_to_last() {
    let mut state = make_state(vec![plain_entry("a"), plain_entry("b"), plain_entry("c")]);
    let mut selected = 0;

    let action = handle_key(press(Key::Char('k')), &mut state, &mut selected);

    assert!(matches!(action, KeyAction::Nothing));
    assert_eq!(selected, 2);
    assert_eq!(state.selected, 2);
}

#[test]
fn handle_key_toggles_session_filter_with_s() {
    let mut current = plain_entry("current");
    current.snapshot.current = true;
    let mut state = PaneSwitcherState {
        all_rows: vec![current.clone(), plain_entry("other")],
        rows: vec![current],
        selected: 0,
        loaded_count: 0,
        current_session_only: false,
        current_session_name: Some("current".to_string()),
    };
    let mut selected = 0;

    let action = handle_key(press(Key::Char('s')), &mut state, &mut selected);

    assert!(matches!(action, KeyAction::ToggleSessionFilter));
    state.toggle_current_session_only();
    assert!(state.current_session_only);
    assert_eq!(state.rows.len(), 1);
    assert_eq!(state.rows[0].snapshot.session_name, "current");
}

#[test]
fn solid_and_underline_are_distinct_styles() {
    let entry = plain_entry("session");

    let solid = entry.row_cells(true, PaneSwitcherHighlight::Solid, false).style;
    let underline = entry.row_cells(true, PaneSwitcherHighlight::Underline, false).style;

    assert_eq!(solid.bg, Some(accent()));
    assert_eq!(underline.bg, None);
    assert!(underline.underlined);
}

#[test]
fn sidebar_text_uses_two_lines_with_optional_session() {
    let mut snap = snapshot("%1", "swarmux-pane-1", false, None);
    snap.managed_by_swarmux = true;
    snap.window_name = "window".to_string();
    snap.pane_title = "Implement sidebar rendering".to_string();
    snap.git = Some(PaneGitSummary {
        dirty: true,
        changed_files: 2,
        deleted_files: 0,
        untracked_files: 0,
        insertions: 0,
        deletions: 0,
        label: "chg2".to_string(),
    });
    snap.label = String::new();
    let entry = PaneEntry { snapshot: snap, metadata_loaded: true };

    let text = entry.sidebar_text(60, true, PaneSwitcherHighlight::Underline, true, false);
    assert_eq!(text.len(), 2);
    assert!(format!("{:?}", text[0]).contains("▶ Implement sidebar rendering"));
    assert_eq!(text[1].spans[1].content.as_str(), "core@main");
    assert_eq!(text[1].spans[1].style.fg, text[0].spans[0].style.fg);
    assert_eq!(text[1].spans[2].content.chars().count(), 45);
    assert_eq!(text[1].spans[3].content.as_str(), "chg2");

    let text_with_session = entry.sidebar_text(60, false, PaneSwitcherHighlight::Solid, false, true);
    assert!(format!("{:?}", text_with_session[1]).contains("swarmux-pane-1"));
}
