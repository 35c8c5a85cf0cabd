use runner_dashboard::dashboard::{App, AppMode};
use runner_dashboard::logs::{get_runner_logs, journal_command, last_lines, LogSource};
use runner_dashboard::runner::{Runner, RunnerStatus};
use runner_dashboard::worker::{WorkerCommand, WorkerResponse};

fn runner(n: u32, status: RunnerStatus) -> Runner {
    Runner {
        name: format!("runner-{}", n),
        number: n,
        repo: "r".to_string(),
        status,
        service_name: format!("actions.runner.u.r-runner-{}", n),
        path: format!("/r/{}", n),
    }
}

fn app(n: u32) -> App {
    App::new((0..n).map(|i| runner(i, RunnerStatus::Active)).collect())
}

#[test]
fn selection_wraps_both_ways() {
    let mut a = app(3);
    a.select_previous();
    assert_eq!(a.selected, 2);
    a.select_next();
    assert_eq!(a.selected, 0);
    a.select_next();
    assert_eq!(a.selected, 1);
    let mut empty = app(0);
    empty.select_next();
    empty.select_previous();
    assert_eq!(empty.selected, 0);
    assert!(empty.selected_runner().is_none());
}

#[test]
fn counts_by_status() {
    let a = App::new(vec![
        runner(0, RunnerStatus::Active),
        runner(1, RunnerStatus::Failed),
        runner(2, RunnerStatus::Active),
        runner(3, RunnerStatus::NotFound),
    ]);
    assert_eq!(a.counts(), (2, 1, 4));
}

#[test]
fn updates_keep_selection_in_range_and_messages_in_order() {
    let mut a = app(4);
    a.selected = 3;
    a.poll_worker_updates(
        vec![
            WorkerResponse::RunnersUpdated(vec![runner(0, RunnerStatus::Failed), runner(1, RunnerStatus::Active)]),
            WorkerResponse::ActionComplete { message: "Stopped r-runner-0".to_string() },
        ],
        false,
    );
    assert_eq!(a.runners.len(), 2);
    assert_eq!(a.selected, 1);
    assert_eq!(a.status_message.as_deref(), Some("Stopped r-runner-0"));
    a.poll_worker_updates(vec![], true);
    assert_eq!(a.status_message.as_deref(), Some("ERROR: Background worker crashed. Data may be stale."));
}

#[test]
fn control_requests_and_status_line() {
    let mut a = app(2);
    a.select_next();
    match a.restart_selected() {
        WorkerCommand::ControlRunner { runner_index, action } => {
            assert_eq!(runner_index, 1);
            assert_eq!(action, "restart");
        }
        other => panic!("unexpected {:?}", other),
    }
    assert!(matches!(a.start_selected(), WorkerCommand::ControlRunner { .. }));
    a.control_selected_runner("restart", true);
    assert_eq!(a.status_message.as_deref(), Some("Restarting runner..."));
    a.control_selected_runner("stop", true);
    assert_eq!(a.status_message.as_deref(), Some("Stoping runner..."));
    a.control_selected_runner("start", false);
    assert_eq!(a.status_message.as_deref(), Some("Error: Worker thread unavailable"));
    a.refresh(false);
    assert_eq!(a.status_message.as_deref(), Some("Warning: Worker thread unavailable"));
}

#[test]
fn log_view_toggles_and_scrolls() {
    let mut a = app(1);
    a.toggle_logs(Some(vec!["a".to_string(), "b".to_string(), "c".to_string()]));
    assert_eq!(a.mode, AppMode::Logs);
    assert_eq!(a.log_scroll, 2);
    a.scroll_logs_down();
    assert_eq!(a.log_scroll, 2);
    a.scroll_logs_up();
    a.scroll_logs_up();
    a.scroll_logs_up();
    assert_eq!(a.log_scroll, 0);
    a.toggle_logs(None);
    assert_eq!(a.mode, AppMode::Normal);
    assert!(a.logs.is_empty());
    a.toggle_help();
    assert_eq!(a.mode, AppMode::Help);
    a.toggle_help();
    assert_eq!(a.mode, AppMode::Normal);
}

#[test]
fn log_sources() {
    assert_eq!(last_lines("1\n2\n3\n4\n", 2), vec!["3", "4"]);
    assert_eq!(last_lines("1\n2", 5), vec!["1", "2"]);
    assert!(last_lines("1\n2", 0).is_empty());
    assert_eq!(get_runner_logs(&LogSource::NoDiagnostics, 10), vec!["No logs found (no _diag directory)"]);
    assert_eq!(
        get_runner_logs(&LogSource::Diagnostics { worker_log: None, runner_log: None }, 10),
        vec!["No log files found in _diag"]
    );
    assert_eq!(
        get_runner_logs(
            &LogSource::Diagnostics { worker_log: None, runner_log: Some("x\ny\nz".to_string()) },
            2
        ),
        vec!["y", "z"]
    );
    assert_eq!(
        get_runner_logs(
            &LogSource::Diagnostics { worker_log: Some("w1\nw2".to_string()), runner_log: Some("r".to_string()) },
            1
        ),
        vec!["w2"]
    );
    assert_eq!(get_runner_logs(&LogSource::Journal("l1\nl2\n".to_string()), 1), vec!["l1", "l2"]);
    let cmd = journal_command(&runner(3, RunnerStatus::Active), 100);
    assert_eq!(cmd.program, "journalctl");
    assert_eq!(
        cmd.args,
        vec!["-u", "actions.runner.u.r-runner-3", "-n", "100", "--no-pager", "-o", "short-iso"]
    );
}
