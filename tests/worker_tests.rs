use runner_dashboard::control::{ControlEvent, ControlRequest};
use runner_dashboard::probe::{Platform, ProbeObservations, ProbeQuery};
use runner_dashboard::runner::{Runner, RunnerStatus};
use runner_dashboard::worker::{Worker, WorkerAction, WorkerCommand, WorkerResponse, WorkerState};

fn runner(n: u32) -> Runner {
    Runner {
        name: format!("runner-{}", n),
        number: n,
        repo: "repoA".to_string(),
        status: RunnerStatus::NotFound,
        service_name: format!("actions.runner.alice.repoA-runner-{}", n),
        path: format!("/r/repoA/{}", n),
    }
}

fn active_table() -> ProbeObservations {
    ProbeObservations {
        process_listing: None,
        service_table: Some(
            "actions.runner.alice.repoA-runner-0.service loaded active running x\n".to_string(),
        ),
        config_markers: vec![false, true],
    }
}

#[test]
fn refresh_publishes_the_reprobed_list() {
    let mut w = Worker::new(vec![runner(0), runner(1)], Platform::Linux, 0);
    match w.handle_command(WorkerCommand::Refresh) {
        WorkerAction::Probe(q) => assert_eq!(q, vec![ProbeQuery::ProcessListing, ProbeQuery::UnitTable]),
        other => panic!("unexpected {:?}", other),
    }
    let out = w.finish_probe(&active_table());
    assert_eq!(out.len(), 1);
    match &out[0] {
        WorkerResponse::RunnersUpdated(v) => {
            assert_eq!(v[0].status, RunnerStatus::Active);
            assert_eq!(v[1].status, RunnerStatus::Inactive);
        }
        other => panic!("unexpected {:?}", other),
    }
    assert!(matches!(w.state, WorkerState::Idle));
}

#[test]
fn control_outcome_follows_a_fresh_probe() {
    let mut w = Worker::new(vec![runner(0), runner(1)], Platform::Linux, 0);
    let mut action = w.handle_command(WorkerCommand::ControlRunner {
        runner_index: 0,
        action: "stop".to_string(),
    });
    let mut steps = 0;
    loop {
        match action {
            WorkerAction::Control(req) => {
                steps += 1;
                let event = match req {
                    ControlRequest::Run(_) => ControlEvent::Finished {
                        success: false,
                        stdout: String::new(),
                        stderr: "boom".to_string(),
                    },
                    ControlRequest::FileExists(_) => ControlEvent::Exists(false),
                    _ => ControlEvent::Launched,
                };
                action = w.control_event(&event);
            }
            WorkerAction::Probe(_) => break,
            WorkerAction::Stop => panic!("stopped"),
        }
    }
    assert_eq!(steps, 3);
    let out = w.finish_probe(&active_table());
    assert_eq!(out.len(), 2);
    match &out[0] {
        WorkerResponse::RunnersUpdated(v) => assert_eq!(v[0].status, RunnerStatus::Active),
        other => panic!("unexpected {:?}", other),
    }
    match &out[1] {
        WorkerResponse::ActionComplete { message } => assert_eq!(message, "Error: Failed to stop runner repoA-runner-0: boom"),
        other => panic!("unexpected {:?}", other),
    }
}

#[test]
fn refused_and_out_of_range_requests_still_reprobe() {
    let mut w = Worker::new(vec![runner(0)], Platform::Linux, 0);
    let a = w.handle_command(WorkerCommand::ControlRunner { runner_index: 5, action: "start".to_string() });
    assert!(matches!(a, WorkerAction::Probe(_)));
    let out = w.finish_probe(&active_table());
    match &out[1] {
        WorkerResponse::ActionComplete { message } => {
            assert_eq!(message, "Error: Runner index 5 out of bounds (have 1 runners)")
        }
        other => panic!("unexpected {:?}", other),
    }
    let a = w.handle_command(WorkerCommand::ControlRunner { runner_index: 0, action: "delete".to_string() });
    assert!(matches!(a, WorkerAction::Probe(_)));
    let out = w.finish_probe(&active_table());
    assert!(matches!(&out[0], WorkerResponse::RunnersUpdated(_)));
    match &out[1] {
        WorkerResponse::ActionComplete { message } => assert_eq!(message, "Error: Invalid action: delete"),
        other => panic!("unexpected {:?}", other),
    }
}

#[test]
fn shutdown_stops_the_worker() {
    let mut w = Worker::new(vec![], Platform::MacOs, 0);
    assert!(matches!(w.handle_command(WorkerCommand::Shutdown), WorkerAction::Stop));
    assert!(matches!(w.state, WorkerState::Stopped));
    let mut w = Worker::new(vec![], Platform::MacOs, 0);
    match w.handle_command(WorkerCommand::Refresh) {
        WorkerAction::Probe(q) => assert!(q.is_empty()),
        other => panic!("unexpected {:?}", other),
    }
}
