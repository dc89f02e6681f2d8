use swarmux::config::{parse_backend_kind, tmux_session_ignore_filter, BackendKind, ConfigError, TaskRuntime, UiConfig};
use swarmux::keys::{Key, KeyPress};
use swarmux::model::{Moment, OverviewScope, TaskMode, TaskRecord, TaskState};
use swarmux::overview_tui::{handle_key as overview_key, move_selection, AppState, KeyAction as OverviewAction, Tab, TasksFilter};
use swarmux::overview_tui_data::{count_by, DashboardData, TaskSummary};
use swarmux::overview_tui_helpers::{
    age_label, format_timestamp, metric_line, relative_time, relative_time_at, render_counts,
    task_detail_lines, truncate, window_start,
};
use swarmux::overview_tui_render::{empty_tasks_message, footer_line as overview_footer, task_row, task_table_rows};
use swarmux::panes::{jump_target, run as panes_run, shell_quote, JumpError, PaneSnapshot, PanesAction, PanesCommand};
use swarmux::panes_support::{fixed_cell, git_summary_label, parse_pane_list, RawPane, TmuxParseError};
use swarmux::panes_tui::{open_switcher, PaneEntry, PaneSwitcherState};
use swarmux::panes_tui_render::{handle_key as panes_key, header_status, header_title_line, KeyAction, ViewMode};
use swarmux::style::{good, muted, StyledLine};

fn task(id: &str, state: TaskState, updated_at: i64) -> TaskRecord {
    TaskRecord {
        id: id.to_string(),
        title: format!("task {id}"),
        repo: "core".to_string(),
        repo_root: "/tmp/core".to_string(),
        mode: TaskMode::Auto,
        runtime: TaskRuntime::Headless,
        branch: None,
        worktree: None,
        session: Some(format!("session-{id}")),
        command: vec!["codex".to_string(), "hi".to_string()],
        priority: 0,
        external_ref: None,
        origin: None,
        state,
        reason: "queued".to_string(),
        last_error: None,
        log_file: "/tmp/core/log".to_string(),
        created_at: Moment::new(1_000, 0).unwrap(),
        updated_at: Moment::new(updated_at, 0).unwrap(),
        finished_at: None,
    }
}

fn raw(pane_id: &str, session: &str, bell: bool) -> RawPane {
    RawPane {
        session_name: session.to_string(),
        window_id: "@1".to_string(),
        window_index: 1,
        window_name: "shell".to_string(),
        pane_id: pane_id.to_string(),
        pane_index: 0,
        pane_active: true,
        window_bell_flag: bell,
        pane_current_path: "/tmp".to_string(),
        pane_current_command: "bash".to_string(),
        pane_title: "title".to_string(),
    }
}

fn text(line: &StyledLine) -> String {
    line.spans.iter().map(|s| s.content.clone()).collect::<Vec<_>>().join("")
}

fn press(key: Key) -> KeyPress {
    KeyPress { key, ctrl: false }
}

#[test]
fn shell_quote_wraps_and_escapes_single_quotes() {
    assert_eq!(shell_quote(""), "''");
    assert_eq!(shell_quote("plain"), "'plain'");
    assert_eq!(shell_quote("it's"), "'it'\"'\"'s'");
}

#[test]
fn fixed_cell_is_always_as_wide_as_its_column() {
    assert_eq!(fixed_cell("ab", 4), "ab  ");
    assert_eq!(fixed_cell("abcdef", 4), "abc\u{2026}");
    assert_eq!(fixed_cell("abcdef", 4).chars().count(), 4);
}

#[test]
fn git_label_is_clean_exactly_when_not_dirty() {
    assert_eq!(git_summary_label(false, 3, 0, 0, 0, 0), "clean");
    assert_eq!(git_summary_label(true, 0, 0, 0, 0, 0), "dirty");
    assert_eq!(git_summary_label(true, 2, 1, 4, 12, 3), "chg2 del1 new4 +12/-3");
}

#[test]
fn session_ignore_filter_joins_trimmed_patterns() {
    assert_eq!(tmux_session_ignore_filter(&vec![" ".to_string()]), "1");
    assert_eq!(
        tmux_session_ignore_filter(&vec![" alpha-* ".to_string()]),
        "#{!=:#{m:alpha-*,#{session_name}},1}"
    );
    assert_eq!(
        tmux_session_ignore_filter(&vec!["a".to_string(), "b".to_string()]),
        "#{&&:#{!=:#{m:a,#{session_name}},1},#{!=:#{m:b,#{session_name}},1}}"
    );
}

#[test]
fn backend_names_are_files_or_beads() {
    assert_eq!(parse_backend_kind("files").ok(), Some(BackendKind::Files));
    assert_eq!(parse_backend_kind("beads").ok(), Some(BackendKind::Beads));
    assert!(matches!(parse_backend_kind("sqlite"), Err(ConfigError::InvalidBackend(name)) if name == "sqlite"));
}

#[test]
fn task_summary_active_and_terminal_add_up_to_total() {
    let tasks = vec![
        task("a", TaskState::Queued, 1),
        task("b", TaskState::Running, 2),
        task("c", TaskState::Failed, 3),
        task("d", TaskState::Canceled, 4),
        task("e", TaskState::WaitingInput, 5),
    ];
    let summary = TaskSummary::from(&tasks);
    assert_eq!(summary.total, 5);
    assert_eq!(summary.active(), 3);
    assert_eq!(summary.terminal(), 2);
    assert_eq!(summary.active() + summary.terminal(), summary.total);
    assert_eq!(summary.auto, 5);
    assert_eq!(summary.headless, 5);
    assert_eq!(summary.with_session, 5);
}

#[test]
fn tasks_filter_returns_after_three_steps() {
    for f in [TasksFilter::Active, TasksFilter::Terminal, TasksFilter::All] {
        assert_eq!(f.next().next().next(), f);
        assert_ne!(f.next(), f);
    }
    assert_eq!(TasksFilter::Active.label(), "active");
    assert_eq!(TasksFilter::Terminal.label(), "terminal");
    assert_eq!(TasksFilter::All.label(), "all");
}

#[test]
fn moving_back_returns_to_the_same_row() {
    let mut selected = 2;
    move_selection(&mut selected, 10, 3);
    assert_eq!(selected, 5);
    move_selection(&mut selected, 10, -3);
    assert_eq!(selected, 2);
    move_selection(&mut selected, 0, 5);
    assert_eq!(selected, 0);
}

#[test]
fn window_keeps_selection_visible() {
    assert_eq!(window_start(9, 4, 10), 6);
    assert_eq!(window_start(5, 4, 10), 3);
    assert_eq!(window_start(1, 4, 10), 0);
    assert_eq!(window_start(7, 0, 10), 0);
    assert_eq!(window_start(7, 20, 10), 0);
}

#[test]
fn count_by_lists_busiest_labels_first_then_by_name() {
    let keys = ["b", "a", "b", "c", "a", "d"].iter().map(|s| s.to_string()).collect::<Vec<_>>();
    assert_eq!(count_by(&keys, 2), vec![("a".to_string(), 2), ("b".to_string(), 2)]);
    assert_eq!(
        count_by(&keys, 10),
        vec![("a".to_string(), 2), ("b".to_string(), 2), ("c".to_string(), 1), ("d".to_string(), 1)]
    );
    assert!(count_by(&keys, 0).is_empty());
    assert!(count_by(&Vec::new(), 3).is_empty());
}

#[test]
fn age_label_picks_the_largest_whole_unit() {
    assert_eq!(age_label(42), "42s");
    assert_eq!(age_label(120), "2m");
    assert_eq!(age_label(7_200), "2h");
    assert_eq!(age_label(3 * 86_400 + 5), "3d");
    let at = |secs: i64, nanos: u32| Moment::new(secs, nanos).unwrap();
    assert_eq!(relative_time_at(at(100, 0), at(50, 0)), "0s");
    assert_eq!(relative_time_at(at(0, 0), at(59, 0)), "59s");
    assert_eq!(relative_time_at(at(0, 600_000_000), at(60, 100_000_000)), "59s");
    assert_eq!(relative_time_at(at(0, 100_000_000), at(60, 100_000_000)), "1m");
}

#[test]
fn relative_time_reads_the_clock() {
    let label = relative_time(Moment::new(0, 0).unwrap());
    assert!(label.ends_with('d'));
    assert_ne!(label, "0s");
}

#[test]
fn timestamps_are_written_in_utc() {
    assert_eq!(format_timestamp(Moment::new(0, 0).unwrap()), "1970-01-01 00:00:00 UTC");
    assert_eq!(format_timestamp(Moment::new(1_700_000_000, 999_999_999).unwrap()), "2023-11-14 22:13:20 UTC");
    assert_eq!(format_timestamp(Moment::new(59, 1_500_000_000).unwrap()), "1970-01-01 00:00:60 UTC");
}

#[test]
fn truncate_keeps_short_text_and_marks_cut_text() {
    assert_eq!(truncate("abc", 3), "abc");
    assert_eq!(truncate("abcdefgh", 5), "ab...");
    assert_eq!(truncate("abcdefgh", 2), "...");
}

#[test]
fn jump_target_reports_each_error() {
    let mut managed = PaneSnapshot {
        current: false,
        managed_by_swarmux: true,
        session_name: "s".to_string(),
        window_id: "@1".to_string(),
        window_index: 0,
        window_name: "w".to_string(),
        pane_id: "%1".to_string(),
        pane_index: 0,
        pane_active: true,
        window_bell_flag: false,
        pane_current_path: "/tmp".to_string(),
        pane_current_command: "bash".to_string(),
        pane_title: "t".to_string(),
        task: None,
        repo_root: None,
        repo: None,
        branch: None,
        git: None,
        label: String::new(),
    };
    let mut unmanaged = managed.clone();
    unmanaged.managed_by_swarmux = false;
    unmanaged.pane_id = "%0".to_string();
    managed.pane_id = "%2".to_string();
    let panes = vec![unmanaged, managed];
    assert!(matches!(jump_target(&panes, 0), Err(JumpError::IndexOutOfRange)));
    assert!(matches!(jump_target(&panes, 10), Err(JumpError::IndexOutOfRange)));
    assert!(matches!(jump_target(&panes, 2), Err(JumpError::NoManagedPane(2))));
    assert_eq!(jump_target(&panes, 1).unwrap().pane_id, "%2");
}

#[test]
fn pane_list_lines_are_read_or_rejected() {
    let ok = parse_pane_list("s\t@1\t2\tw\t%3\t0\t1\t0\t/tmp\tbash\ttitle\n\n").unwrap();
    assert_eq!(ok.len(), 1);
    assert_eq!(ok[0].window_index, 2);
    assert!(ok[0].pane_active);
    assert!(!ok[0].window_bell_flag);
    assert!(matches!(parse_pane_list("s\t@1\tx\tw\t%3\t0\t1\t0\t/tmp\tbash\ttitle"), Err(TmuxParseError::InvalidInteger(_))));
    assert!(matches!(parse_pane_list("s\t@1\t2\tw\t%3\t0\tmaybe\t0\t/tmp\tbash\ttitle"), Err(TmuxParseError::InvalidBool(_))));
    assert!(matches!(parse_pane_list("s\t@1"), Err(TmuxParseError::MissingField(_))));
}

#[test]
fn switcher_opens_without_its_own_pane_and_sorts_current_first() {
    let raws = vec![raw("%1", "alpha", false), raw("%2", "beta", false), raw("%3", "gamma", false)];
    let state = open_switcher(
        &vec![],
        &raws,
        &vec![None, None, None],
        Some("%3".to_string()),
        Some("%2".to_string()),
        false,
        None,
    );
    assert_eq!(state.all_rows.len(), 2);
    assert_eq!(state.all_rows[0].snapshot.pane_id, "%3");
    assert!(state.all_rows[0].snapshot.current);
    assert_eq!(state.all_rows[1].snapshot.pane_id, "%1");
    assert_eq!(state.rows.len(), 2);
    assert_eq!(state.selected, 0);
    assert_eq!(state.loaded_count, 0);
}

#[test]
fn bell_flags_follow_tmux() {
    let mut state = open_switcher(&vec![], &vec![raw("%1", "a", false)], &vec![None], None, None, false, None);
    assert!(!state.refresh_window_bell_flags(&vec![raw("%1", "a", false)]));
    assert!(state.refresh_window_bell_flags(&vec![raw("%9", "z", true), raw("%1", "a", true)]));
    assert!(state.rows[0].snapshot.window_bell_flag);
    assert!(state.all_rows[0].snapshot.window_bell_flag);
}

#[test]
fn moving_down_then_up_restores_the_selection() {
    let rows: Vec<PaneEntry> = open_switcher(
        &vec![],
        &vec![raw("%1", "a", false), raw("%2", "b", false), raw("%3", "c", false)],
        &vec![None, None, None],
        None,
        None,
        false,
        None,
    )
    .rows;
    let mut state = PaneSwitcherState {
        all_rows: rows.clone(),
        rows,
        selected: 1,
        loaded_count: 0,
        current_session_only: false,
        current_session_name: None,
    };
    let mut selected = 1;
    panes_key(press(Key::Down), &mut state, &mut selected);
    assert_eq!(selected, 2);
    panes_key(press(Key::Up), &mut state, &mut selected);
    assert_eq!(selected, 1);
    panes_key(press(Key::End), &mut state, &mut selected);
    assert_eq!(state.selected, 2);
    panes_key(press(Key::Home), &mut state, &mut selected);
    assert_eq!(state.selected, 0);
    assert!(matches!(panes_key(KeyPress { key: Key::Char('c'), ctrl: true }, &mut state, &mut selected), KeyAction::Quit));
    assert!(matches!(panes_key(press(Key::Char('c')), &mut state, &mut selected), KeyAction::Nothing));
    match panes_key(press(Key::Enter), &mut state, &mut selected) {
        KeyAction::Activate(p) => assert_eq!(p.pane_id, state.rows[0].snapshot.pane_id),
        _ => panic!("enter activates the selected pane"),
    }
}

#[test]
fn header_title_fills_the_width() {
    let narrow = header_title_line(10);
    assert_eq!(text(&narrow), "SWARMUX PANES");
    let wide = header_title_line(20);
    assert_eq!(text(&wide), "\u{250c} SWARMUX PANES \u{2500}\u{2500}\u{2500}\u{2510}");
    assert_eq!(text(&wide).chars().count(), 20);
    assert_eq!(header_status(0, 0), "empty");
    assert_eq!(header_status(2, 2), "ready");
    assert_eq!(header_status(1, 2), "loading");
}

#[test]
fn dashboard_lists_newest_first_and_filters_by_scope() {
    let tasks = vec![
        task("old", TaskState::Running, 10),
        task("new", TaskState::Succeeded, 30),
        task("mid", TaskState::Queued, 20),
    ];
    let data = DashboardData::from_tasks(tasks, OverviewScope::NonTerminal, Moment::new(99, 0).unwrap());
    let ids = data.all_tasks.iter().map(|t| t.id.as_str()).collect::<Vec<_>>();
    assert_eq!(ids, vec!["new", "mid", "old"]);
    let visible = data.visible_tasks.iter().map(|t| t.id.as_str()).collect::<Vec<_>>();
    assert_eq!(visible, vec!["mid", "old"]);
    assert_eq!(data.visible_summary.total, 2);
    assert_eq!(data.all_summary.succeeded, 1);
    assert_eq!(data.repo_counts, vec![("core".to_string(), 3)]);
    assert_eq!(data.runtime_counts, vec![("headless".to_string(), 3)]);
    assert_eq!(data.generated_at, Moment::new(99, 0).unwrap());
    let terminal = data.filtered_tasks(TasksFilter::Terminal);
    assert_eq!(terminal.len(), 1);
    assert_eq!(terminal[0].id, "new");
}

#[test]
fn overview_keys_switch_tabs_cycle_filters_and_move() {
    let data = DashboardData::from_tasks(
        vec![task("a", TaskState::Running, 1), task("b", TaskState::Running, 2), task("c", TaskState::Failed, 3)],
        OverviewScope::All,
        Moment::new(0, 0).unwrap(),
    );
    let mut app = AppState::default();
    assert!(matches!(overview_key(&mut app, press(Key::End), &data), OverviewAction::Nothing));
    assert_eq!(app.tasks_selected, 1);
    overview_key(&mut app, press(Key::Char('f')), &data);
    assert_eq!(app.tasks_filter, TasksFilter::Terminal);
    assert_eq!(app.tasks_selected, 0);
    overview_key(&mut app, press(Key::Tab), &data);
    assert_eq!(app.tab, Tab::Stats);
    overview_key(&mut app, press(Key::Char('j')), &data);
    assert_eq!(app.tasks_selected, 0);
    assert!(matches!(overview_key(&mut app, press(Key::Char('r')), &data), OverviewAction::Refresh));
    assert!(matches!(overview_key(&mut app, press(Key::Esc), &data), OverviewAction::Quit));
    overview_key(&mut app, press(Key::Char('h')), &data);
    assert_eq!(app.tab, Tab::Tasks);
    assert!(matches!(overview_key(&mut app, press(Key::Char('x')), &data), OverviewAction::Nothing));
}

#[test]
fn lines_of_the_overview() {
    let line = metric_line("running", 3, good());
    assert_eq!(line.spans[0].content, "running      ");
    assert_eq!(line.spans[1].content, "    3");
    let long = metric_line("a very long metric label", 123456, good());
    assert_eq!(long.spans[0].content, "a very lon...");
    assert_eq!(long.spans[1].content, "123456");
    let none = render_counts(&vec![], good());
    assert_eq!(none.len(), 1);
    assert_eq!(text(&none[0]), "none");
    assert_eq!(none[0].spans[0].style.fg, Some(muted()));
    assert_eq!(empty_tasks_message(TasksFilter::Active), "no active tasks");
    assert_eq!(empty_tasks_message(TasksFilter::Terminal), "no terminal tasks");
    assert_eq!(empty_tasks_message(TasksFilter::All), "no tasks");
    assert!(text(&overview_footer(2, 5)).ends_with("2 tasks / 5 total"));
}

#[test]
fn task_rows_and_details() {
    let t = task("a", TaskState::Running, 1_700_000_000);
    let row = task_row(&t, true, true);
    let cells = row.cells.iter().map(text).collect::<Vec<_>>();
    assert_eq!(cells.len(), 7);
    assert_eq!(cells[0], "\u{25b6}");
    assert_eq!(cells[2], "running");
    assert_eq!(cells[3], "headless");
    assert_eq!(cells[5], "session-a");
    assert_eq!(cells[6], "task a");
    assert!(row.style.underlined);
    let plain_row = task_row(&t, false, false);
    assert_eq!(plain_row.cells.len(), 6);
    assert_eq!(text(&plain_row.cells[0]), "\u{b7}");

    let details = task_detail_lines(&t);
    let texts = details.iter().map(text).collect::<Vec<_>>();
    assert_eq!(texts[0], "id        a");
    assert_eq!(texts[7], "created   1970-01-01 00:16:40 UTC");
    assert_eq!(texts[9], "command   codex hi");
    assert_eq!(texts[10], "session   session-a");
    assert_eq!(texts.len(), 11);

    let t2 = task("b", TaskState::Running, 5);
    let tasks = vec![&t, &t2, &t, &t2, &t];
    let rows = task_table_rows(&tasks, 4, 2, false);
    assert_eq!(rows.len(), 2);
    assert_eq!(text(&rows[1].cells[0]), "\u{25b6}");
}

#[test]
fn panes_command_dispatch() {
    assert_eq!(panes_run(None), PanesAction::List);
    assert_eq!(panes_run(Some(PanesCommand::SyncTmuxMeta)), PanesAction::SyncTmuxMeta);
    assert_eq!(panes_run(Some(PanesCommand::Jump { index: 3 })), PanesAction::Jump(3));
    let switch = |launch_sidebar, tui, tui_sidebar| PanesCommand::Switch {
        pane_id: Some("%1".to_string()),
        launch_sidebar,
        tui,
        tui_sidebar,
    };
    assert_eq!(panes_run(Some(switch(true, true, true))), PanesAction::LaunchSidebar(Some("%1".to_string())));
    assert_eq!(panes_run(Some(switch(false, true, true))), PanesAction::SwitcherFullscreen(Some("%1".to_string())));
    assert_eq!(panes_run(Some(switch(false, false, true))), PanesAction::SwitcherSidebar(Some("%1".to_string())));
    assert_eq!(panes_run(Some(switch(false, false, false))), PanesAction::TreePopup);
}

#[test]
fn view_modes_pick_their_settings() {
    let ui = UiConfig {
        pane_switcher_highlight: swarmux::config::PaneSwitcherHighlight::Solid,
        pane_switcher_show_arrow: true,
        pane_switcher_current_session_only: true,
        pane_switcher_sidebar_current_session_only: false,
        pane_switcher_sidebar_show_session: true,
    };
    assert!(ViewMode::Fullscreen.current_session_only(&ui));
    assert!(!ViewMode::Sidebar.current_session_only(&ui));
    assert_eq!(ViewMode::Fullscreen.excluded_pane(Some("%1".to_string())), None);
    assert_eq!(ViewMode::Sidebar.excluded_pane(Some("%1".to_string())), Some("%1".to_string()));
    assert_eq!(
        ViewMode::Sidebar.terminal_required_message(),
        "panes switch --tui-sidebar requires an interactive terminal"
    );
}

#[test]
fn labels_write_the_home_directory_as_tilde() {
    let home = dirs::home_dir().expect("a home directory").display().to_string();
    let mut pane = raw("%1", "s", false);
    pane.pane_current_path = format!("{home}/projects/core");
    let label = swarmux::panes_support::build_label(&pane, None, Some("core"), Some("main"), None);
    assert_eq!(label, "bash | core@main | ~/projects/core");
}

#[test]
fn default_config_home_is_the_platform_config_directory() {
    assert_eq!(
        swarmux::config::default_config_home(),
        dirs::config_dir().map(|p| p.into_os_string().into_encoded_bytes())
    );
}

#[test]
fn empty_summary_counts_nothing() {
    let summary = TaskSummary::default();
    assert_eq!(summary, TaskSummary::from(&Vec::<TaskRecord>::new()));
    assert_eq!(summary.total, 0);
    assert_eq!(summary.active(), 0);
}

#[test]
fn pane_list_and_switcher_write_the_given_home_as_tilde() {
    let mut pane = raw("%1", "s", false);
    pane.pane_current_path = "/home/ada/work".to_string();
    let panes = swarmux::panes::assemble_panes_with_home(
        &vec![],
        &vec![pane.clone()],
        &vec![None],
        None,
        Some("/home/ada"),
    );
    assert_eq!(panes[0].label, "bash | ~/work");
    let state = swarmux::panes_tui::open_switcher_with_home(
        &vec![],
        &vec![pane],
        &vec![None],
        None,
        None,
        false,
        None,
        Some("/elsewhere"),
    );
    assert_eq!(state.all_rows[0].snapshot.label, "bash | /home/ada/work");
}

#[test]
fn enter_and_stop_keys_accept_any_selection() {
    let data = DashboardData::from_tasks(vec![task("a", TaskState::Running, 1)], OverviewScope::All, Moment::new(0, 0).unwrap());
    let mut app = AppState { tab: Tab::Tasks, tasks_filter: TasksFilter::Active, tasks_selected: usize::MAX };
    assert!(matches!(overview_key(&mut app, press(Key::Enter), &data), OverviewAction::Nothing));
    assert!(matches!(overview_key(&mut app, press(Key::Char('x')), &data), OverviewAction::Nothing));
    overview_key(&mut app, press(Key::Char('f')), &data);
    assert_eq!(app.tasks_filter, TasksFilter::Terminal);
    assert_eq!(app.tasks_selected, 0);
}

#[test]
fn a_repeated_git_update_changes_nothing() {
    let mut state = open_switcher(&vec![], &vec![raw("%1", "a", false)], &vec![None], None, None, false, None);
    let git = swarmux::panes::PaneGitSummary {
        dirty: false,
        changed_files: 0,
        deleted_files: 0,
        untracked_files: 0,
        insertions: 0,
        deletions: 0,
        label: "clean".to_string(),
    };
    let update = |g: &swarmux::panes::PaneGitSummary| swarmux::panes_tui::HydrationUpdate::PaneGit {
        pane_id: "%1".to_string(),
        git: Some(g.clone()),
    };
    assert!(state.apply_update(update(&git)));
    let label = state.rows[0].snapshot.label.clone();
    assert_eq!(state.loaded_count, 1);
    let mut other = git.clone();
    other.label = "dirty".to_string();
    assert!(state.apply_update(update(&other)));
    assert_eq!(state.rows[0].snapshot.label, label);
    assert_eq!(state.rows[0].snapshot.git.as_ref().unwrap().label, "clean");
    assert_eq!(state.loaded_count, 1);
}

#[test]
fn moments_cover_exactly_what_chrono_holds() {
    let min = chrono::DateTime::<chrono::Utc>::MIN_UTC;
    let max = chrono::DateTime::<chrono::Utc>::MAX_UTC;
    assert!(Moment::new(min.timestamp(), 0).is_some());
    assert!(Moment::new(min.timestamp() - 1, 0).is_none());
    assert!(Moment::new(max.timestamp(), max.timestamp_subsec_nanos()).is_some());
    assert!(Moment::new(max.timestamp() + 1, 0).is_none());
    assert!(Moment::new(59, 1_999_999_999).is_some());
    assert!(Moment::new(58, 1_000_000_000).is_none());
    assert!(Moment::new(-1, 1_000_000_000).is_some());
    assert!(Moment::new(-2, 1_000_000_000).is_none());
    assert!(Moment::new(0, 2_000_000_000).is_none());
}

#[test]
fn tasks_in_the_same_second_sort_by_nanoseconds() {
    let mut early = task("early", TaskState::Running, 500);
    let mut late = task("late", TaskState::Running, 500);
    early.updated_at = Moment::new(500, 1).unwrap();
    late.updated_at = Moment::new(500, 2).unwrap();
    let data = DashboardData::from_tasks(vec![late, early], OverviewScope::All, Moment::new(0, 0).unwrap());
    let ids = data.all_tasks.iter().map(|t| t.id.as_str()).collect::<Vec<_>>();
    assert_eq!(ids, vec!["late", "early"]);
}

#[test]
fn paths_keep_their_bytes_and_display_as_text() {
    let config = swarmux::config::AppConfig {
        home: b"/srv/st\xffate".to_vec(),
        config_home: b"/etc/".to_vec(),
        backend: BackendKind::Files,
        settings: swarmux::config::FileConfig::default(),
    };
    assert_eq!(config.tasks_dir(), b"/srv/st\xffate/tasks".to_vec());
    assert_eq!(config.config_file(), b"/etc/swarmux/config.toml".to_vec());
    let info = config.paths_info();
    assert_eq!(info.home, "/srv/st\u{fffd}ate");
    assert_eq!(info.events_file, "/srv/st\u{fffd}ate/events.jsonl");
    assert_eq!(info.backend, "files");
    assert_eq!(swarmux::config::join(&Vec::new(), "a"), b"a".to_vec());
    assert_eq!(
        swarmux::config::default_state_home(Some(b"/x/y".to_vec())),
        Some(b"/x/y/swarmux".to_vec())
    );
}
