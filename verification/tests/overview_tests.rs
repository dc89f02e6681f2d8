use swarmux::config::TaskRuntime;
use swarmux::keys::{Key, KeyPress};
use swarmux::model::{Moment, overview_scope_matches, OverviewScope, TaskMode, TaskRecord, TaskState};
use swarmux::overview_tui::{handle_key, move_selection, AppState, KeyAction, Tab, TasksFilter};
use swarmux::overview_tui_data::{count_by, DashboardData, TaskSummary};
use swarmux::panes_support::runtime_label;

fn task(title: &str) -> TaskRecord {
    TaskRecord {
        id: format!("id-{title}"),
        title: title.to_string(),
        repo: "core".to_string(),
        repo_root: "/tmp/core".to_string(),
        mode: TaskMode::Manual,
        runtime: TaskRuntime::Tui,
        branch: None,
        worktree: None,
        session: Some("session-1".to_string()),
        command: vec!["echo".to_string(), title.to_string()],
        priority: 1,
        external_ref: None,
        origin: None,
        state: TaskState::Running,
        reason: "running".to_string(),
        last_error: None,
        log_file: "/tmp/core/log".to_string(),
        created_at: Moment::new(1_700_000_000, 0).unwrap(),
        updated_at: Moment::new(1_700_000_000, 0).unwrap(),
        finished_at: None,
    }
}

fn task_with(id: &str, title: &str, state: TaskState, runtime: TaskRuntime) -> TaskRecord {
    let mut t = task(title);
    t.id = id.to_string();
    t.session = Some(format!("session-{id}"));
    t.runtime = runtime;
    t.state = state;
    t
}

fn dashboard(all_tasks: Vec<TaskRecord>) -> DashboardData {
    let all_summary = TaskSummary::from(&all_tasks);
    DashboardData {
        generated_at: Moment::new(1_700_000_000, 0).unwrap(),
        scope: OverviewScope::All,
        visible_tasks: all_tasks.clone(),
        all_tasks,
        visible_summary: all_summary,
        all_summary,
        repo_counts: vec![],
        runtime_counts: vec![],
    }
}

fn press(key: Key) -> KeyPress {
    KeyPress { key, ctrl: false }
}

#[test]
fn move_selection_clamps_to_bounds() {
    let mut selected = 1;
    move_selection(&mut selected, 3, 1);
    assert_eq!(selected, 2);
    move_selection(&mut selected, 3, 1);
    assert_eq!(selected, 2);
    move_selection(&mut selected, 3, -10);
    assert_eq!(selected, 0);
}

#[test]
fn tasks_filter_cycles_and_maps_scope() {
    assert_eq!(TasksFilter::from_scope(OverviewScope::NonTerminal), TasksFilter::Active);
    assert_eq!(TasksFilter::from_scope(OverviewScope::Terminal), TasksFilter::Terminal);
    assert_eq!(TasksFilter::from_scope(OverviewScope::All), TasksFilter::All);
    assert_eq!(TasksFilter::Active.next(), TasksFilter::Terminal);
    assert_eq!(TasksFilter::Terminal.next(), TasksFilter::All);
    assert_eq!(TasksFilter::All.next(), TasksFilter::Active);
    assert!(!TasksFilter::Active.matches(&TaskState::Succeeded));
    assert!(TasksFilter::Terminal.matches(&TaskState::Succeeded));
    assert!(TasksFilter::All.matches(&TaskState::Succeeded));
}

#[test]
fn clamp_to_limits_tasks_selection() {
    let data = dashboard(vec![task("a"), task("b")]);
    let mut app = AppState { tab: Tab::Tasks, tasks_filter: TasksFilter::Active, tasks_selected: 9 };

    app.clamp_to(data.filtered_tasks(app.tasks_filter).len());

    assert_eq!(app.tasks_selected, 1);
}

#[test]
fn enter_focuses_active_task_session() {
    let mut active_task = task("a");
    active_task.session = Some("session-a".to_string());
    let data = dashboard(vec![active_task]);
    let mut app = AppState { tab: Tab::Tasks, tasks_filter: TasksFilter::Active, tasks_selected: 0 };

    let action = handle_key(&mut app, press(Key::Enter), &data);

    assert!(matches!(action, KeyAction::FocusSession(_)));
}

#[test]
fn x_keys_stop_active_task_only() {
    let data = dashboard(vec![task("a")]);
    let mut app = AppState { tab: Tab::Tasks, tasks_filter: TasksFilter::Active, tasks_selected: 0 };

    let interrupt = handle_key(&mut app, press(Key::Char('x')), &data);
    assert!(matches!(interrupt, KeyAction::Stop { kill: false, .. }));

    let kill = handle_key(&mut app, press(Key::Char('X')), &data);
    assert!(matches!(kill, KeyAction::Stop { kill: true, .. }));
}

#[test]
fn dashboard_counts_visible_and_all_tasks_separately() {
    let all = vec![
        task_with("a", "alpha", TaskState::Running, TaskRuntime::Tui),
        task_with("b", "beta", TaskState::Succeeded, TaskRuntime::Mirrored),
        task_with("c", "gamma", TaskState::WaitingInput, TaskRuntime::Headless),
    ];
    let visible = all
        .iter()
        .filter(|task| overview_scope_matches(&task.state, &OverviewScope::NonTerminal))
        .cloned()
        .collect::<Vec<_>>();
    let repos = all.iter().map(|task| task.repo.clone()).collect::<Vec<_>>();
    let runtimes = all.iter().map(|task| runtime_label(task).to_string()).collect::<Vec<_>>();
    let dashboard = DashboardData {
        generated_at: Moment::new(1_700_000_000, 0).unwrap(),
        scope: OverviewScope::NonTerminal,
        visible_summary: TaskSummary::from(&visible),
        visible_tasks: visible,
        all_summary: TaskSummary::from(&all),
        all_tasks: all,
        repo_counts: count_by(&repos, 5),
        runtime_counts: count_by(&runtimes, 3),
    };

    assert_eq!(dashboard.visible_summary.total, 2);
    assert_eq!(dashboard.all_summary.total, 3);
    assert_eq!(dashboard.all_summary.succeeded, 1);
    assert_eq!(dashboard.all_summary.running, 1);
    assert_eq!(dashboard.runtime_counts.len(), 3);
    assert_eq!(dashboard.repo_counts.len(), 1);
}
