use runner_dashboard::probe::{
    probe_plan, refresh_runners, Platform, ProbeObservations, ProbeQuery,
};
use runner_dashboard::runner::{Runner, RunnerStatus};

fn runner(repo: &str, n: u32) -> Runner {
    Runner {
        name: format!("runner-{}", n),
        number: n,
        repo: repo.to_string(),
        status: RunnerStatus::NotFound,
        service_name: format!("actions.runner.alice.{}-runner-{}", repo, n),
        path: format!("/home/alice/action-runners/{}/{}", repo, n),
    }
}

#[test]
fn probe_cost_does_not_grow_with_runners() {
    assert!(probe_plan(&Vec::new(), Platform::Linux).is_empty());
    for n in [1u32, 2, 10, 200] {
        let runners: Vec<Runner> = (0..n).map(|i| runner("r", i)).collect();
        assert_eq!(
            probe_plan(&runners, Platform::Linux),
            vec![ProbeQuery::ProcessListing, ProbeQuery::UnitTable]
        );
        assert_eq!(
            probe_plan(&runners, Platform::MacOs),
            vec![ProbeQuery::ProcessListing, ProbeQuery::AgentTable]
        );
    }
}

#[test]
fn service_manager_answer_wins_over_process_fallback() {
    let mut runners = vec![runner("repoA", 0), runner("repoA", 1)];
    let table = "actions.runner.alice.repoA-runner-0.service loaded active running Runner 0\n\
                 actions.runner.alice.repoA-runner-1.service loaded failed failed Runner 1\n";
    let listing = "100 /home/alice/action-runners/repoA/1/bin/Runner.Listener run\n";
    let obs = ProbeObservations {
        process_listing: Some(listing.to_string()),
        service_table: Some(table.to_string()),
        config_markers: vec![false, false],
    };
    refresh_runners(&mut runners, Platform::Linux, &obs);
    assert_eq!(runners[0].status, RunnerStatus::Active);
    assert_eq!(runners[1].status, RunnerStatus::Failed);
}

#[test]
fn missing_unit_falls_back_to_configuration_marker() {
    let mut runners = vec![runner("repoA", 2)];
    let obs = ProbeObservations {
        process_listing: Some("7 /usr/bin/Runner.Listener /elsewhere\n".to_string()),
        service_table: Some("other.service loaded active running x\n".to_string()),
        config_markers: vec![true],
    };
    refresh_runners(&mut runners, Platform::Linux, &obs);
    assert_eq!(runners[0].status, RunnerStatus::Inactive);
}

#[test]
fn fallback_tiers() {
    let mut runners = vec![runner("r", 0), runner("r", 1), runner("r", 2), runner("r", 3)];
    let table = "actions.runner.alice.r-runner-0.service not-found inactive dead x\n\
                 actions.runner.alice.r-runner-1.service loaded activating start x\n";
    let obs = ProbeObservations {
        process_listing: Some("9 Runner.Worker /home/alice/action-runners/r/1\n".to_string()),
        service_table: Some(table.to_string()),
        config_markers: vec![false, false, true],
    };
    refresh_runners(&mut runners, Platform::Linux, &obs);
    assert_eq!(runners[0].status, RunnerStatus::NotFound);
    assert_eq!(runners[1].status, RunnerStatus::Active);
    assert_eq!(runners[2].status, RunnerStatus::Inactive);
    assert_eq!(runners[3].status, RunnerStatus::NotFound);
}

#[test]
fn failed_queries_degrade_to_fallback() {
    let mut runners = vec![runner("r", 0)];
    let obs = ProbeObservations { process_listing: None, service_table: None, config_markers: vec![] };
    refresh_runners(&mut runners, Platform::Linux, &obs);
    assert_eq!(runners[0].status, RunnerStatus::NotFound);
    assert_eq!(runners[0].repo, "r");
}

#[test]
fn launchd_exact_and_partial_matches() {
    let mut runners = vec![runner("web", 0), runner("web", 1), runner("api", 0), runner("db", 0)];
    let table = "PID\tStatus\tLabel\n\
                 321\t0\tactions.runner.alice.web-runner-0\n\
                 -\t0\tactions.runner.alice.web-runner-1\n\
                 55\t0\tactions.runner.alice.api-extra\n\
                 -\t0\tactions.runner.alice.db-old\n";
    let obs = ProbeObservations {
        process_listing: Some(String::new()),
        service_table: Some(table.to_string()),
        config_markers: vec![false, false, false, true],
    };
    refresh_runners(&mut runners, Platform::MacOs, &obs);
    assert_eq!(runners[0].status, RunnerStatus::Active);
    assert_eq!(runners[1].status, RunnerStatus::Inactive);
    assert_eq!(runners[2].status, RunnerStatus::Active);
    assert_eq!(runners[3].status, RunnerStatus::Inactive);
}

#[test]
fn launchd_partial_match_uses_the_parent_directory_name() {
    let mut other = runner("web", 5);
    other.repo = "unrelated".to_string();
    other.path = "/srv/runners/shop/5".to_string();
    let mut no_parent = runner("shop", 6);
    no_parent.path = "6".to_string();
    let mut runners = vec![other, no_parent];
    let table = "77\u{a0}0\u{2003}actions.runner.bob.shop-runner-1\n";
    let obs = ProbeObservations {
        process_listing: None,
        service_table: Some(table.to_string()),
        config_markers: vec![false, false],
    };
    refresh_runners(&mut runners, Platform::MacOs, &obs);
    assert_eq!(runners[0].status, RunnerStatus::Active);
    assert_eq!(runners[1].status, RunnerStatus::NotFound);
}
