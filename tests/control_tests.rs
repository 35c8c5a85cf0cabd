use runner_dashboard::control::{
    control_runner, validate_path, CommandLine, ControlAction, ControlError, ControlEvent,
    ControlRequest, ControlStep,
};
use runner_dashboard::probe::Platform;
use runner_dashboard::runner::{Runner, RunnerStatus};

fn runner_at(path: &str) -> Runner {
    Runner {
        name: "runner-0".to_string(),
        number: 0,
        repo: "repoA".to_string(),
        status: RunnerStatus::Active,
        service_name: "actions.runner.alice.repoA-runner-0".to_string(),
        path: path.to_string(),
    }
}

fn line(c: &CommandLine) -> String {
    let mut s = c.program.clone();
    for a in &c.args {
        s.push(' ');
        s.push_str(a);
    }
    s
}

/// A stand-in for the host: it answers each request through `answer` and
/// records what was asked.
fn drive(
    runner: &Runner,
    action: &str,
    platform: Platform,
    mut answer: impl FnMut(&ControlRequest) -> ControlEvent,
) -> (Vec<String>, Result<String, ControlError>) {
    let mut log = Vec::new();
    let (mut c, mut req) = match control_runner(runner, action, platform, 501) {
        Ok(started) => started,
        Err(e) => return (log, Err(e)),
    };
    loop {
        log.push(match &req {
            ControlRequest::Run(cmd) => format!("run {}", line(cmd)),
            ControlRequest::Spawn(cmd) => format!("spawn {}", line(cmd)),
            ControlRequest::FileExists(p) => format!("exists {}", p),
            ControlRequest::Sleep(ms) => format!("sleep {}", ms),
        });
        let event = answer(&req);
        match c.advance(&event) {
            ControlStep::Request(next) => req = next,
            ControlStep::Done(outcome) => return (log, outcome),
        }
    }
}

fn finished(success: bool, stdout: &str, stderr: &str) -> ControlEvent {
    ControlEvent::Finished { success, stdout: stdout.to_string(), stderr: stderr.to_string() }
}

#[test]
fn unknown_action_is_refused_without_any_command() {
    let mut calls = 0;
    let (log, outcome) = drive(&runner_at("/r/repoA/0"), "delete", Platform::Linux, |_| {
        calls += 1;
        finished(true, "", "")
    });
    assert_eq!(calls, 0);
    assert!(log.is_empty());
    assert_eq!(outcome, Err(ControlError::Validation("Invalid action: delete".to_string())));
    for bad in ["Start", "START", "", "stop ", "kill"] {
        assert!(matches!(
            control_runner(&runner_at("/r"), bad, Platform::MacOs, 0),
            Err(ControlError::Validation(_))
        ));
    }
}

#[test]
fn malformed_service_names_are_refused() {
    let mut r = runner_at("/r/repoA/0");
    r.service_name = "actions.runner.alice.repo;rm -rf-runner-0".to_string();
    assert_eq!(
        control_runner(&r, "start", Platform::Linux, 0).err(),
        Some(ControlError::Validation("Invalid service name format".to_string()))
    );
    r.service_name = "other.alice.repo-runner-0".to_string();
    assert_eq!(
        control_runner(&r, "stop", Platform::Linux, 0).err(),
        Some(ControlError::Validation("Service name must start with 'actions.runner.'".to_string()))
    );
}

#[test]
fn metacharacter_paths_are_refused() {
    assert!(validate_path("/home/u/action-runners/a/0").is_ok());
    assert_eq!(
        validate_path("/tmp/$(reboot)"),
        Err(ControlError::Validation("Invalid path: contains shell metacharacter '$'".to_string()))
    );
    assert_eq!(
        validate_path("/a|b;c"),
        Err(ControlError::Validation("Invalid path: contains shell metacharacter ';'".to_string()))
    );
    let (log, outcome) = drive(&runner_at("/r/a`b`/0"), "stop", Platform::Linux, |req| match req {
        ControlRequest::FileExists(_) => ControlEvent::Exists(false),
        _ => finished(false, "", ""),
    });
    assert_eq!(outcome, Err(ControlError::Validation(
        "Invalid path: contains shell metacharacter '`'".to_string()
    )));
    assert!(log.iter().all(|l| !l.contains("pkill") && !l.contains("pgrep")));
}

#[test]
fn restart_times_out_when_the_runner_never_exits() {
    let mut spawns = 0;
    let mut sleeps = 0;
    let (log, outcome) = drive(&runner_at("/r/repoA/0"), "restart", Platform::Linux, |req| match req {
        ControlRequest::Run(cmd) if cmd.program == "systemctl" => finished(false, "", "no unit"),
        ControlRequest::FileExists(_) => ControlEvent::Exists(false),
        ControlRequest::Run(cmd) if cmd.program == "pkill" => finished(true, "", ""),
        ControlRequest::Run(_) => finished(true, "4242\n", ""),
        ControlRequest::Sleep(_) => {
            sleeps += 1;
            ControlEvent::Waited
        }
        ControlRequest::Spawn(_) => {
            spawns += 1;
            ControlEvent::Launched
        }
    });
    assert_eq!(outcome, Err(ControlError::Timeout(
        "Timeout waiting for runner repoA-runner-0 to stop".to_string()
    )));
    assert_eq!(spawns, 0);
    assert_eq!(sleeps, 50);
    assert_eq!(sleeps as u64 * 100, 5000);
    let terminate = log.iter().position(|l| l.starts_with("run pkill")).unwrap();
    let first_check = log.iter().position(|l| l.starts_with("run pgrep")).unwrap();
    assert!(terminate < first_check);
    assert_eq!(log[terminate], "run pkill -f Runner.*/r/repoA/0");
}

#[test]
fn restart_terminates_then_relaunches() {
    let (log, outcome) = drive(&runner_at("/r/repoA/0"), "restart", Platform::Linux, |req| match req {
        ControlRequest::FileExists(_) => ControlEvent::Exists(false),
        ControlRequest::Spawn(_) => ControlEvent::Launched,
        ControlRequest::Run(cmd) if cmd.program == "pkill" => finished(true, "", ""),
        _ => finished(false, "", ""),
    });
    assert_eq!(outcome, Ok("Restarted repoA-runner-0".to_string()));
    assert_eq!(
        log,
        vec![
            "run systemctl cat actions.runner.alice.repoA-runner-0",
            "exists /r/repoA/0/svc.sh",
            "run pkill -f Runner.*/r/repoA/0",
            "run pgrep -f Runner.Worker.*/r/repoA/0",
            "run pgrep -f Runner.Listener.*/r/repoA/0",
            "run pgrep -f dotnet.*/r/repoA/0",
            "run pgrep -f /r/repoA/0",
            "spawn nohup /r/repoA/0/run.sh",
        ]
    );
}

#[test]
fn relaunch_failure_is_a_spawn_error() {
    let (_, outcome) = drive(&runner_at("/r/repoA/0"), "restart", Platform::Linux, |req| match req {
        ControlRequest::FileExists(_) => ControlEvent::Exists(false),
        ControlRequest::Spawn(_) => ControlEvent::LaunchFailed("not found".to_string()),
        ControlRequest::Run(cmd) if cmd.program == "pkill" => finished(true, "", ""),
        _ => finished(false, "", ""),
    });
    assert_eq!(outcome, Err(ControlError::SpawnFailed("Failed to restart runner repoA-runner-0".to_string())));
}

#[test]
fn registered_unit_is_controlled_and_its_result_is_final() {
    let (log, outcome) = drive(&runner_at("/r/repoA/0"), "stop", Platform::Linux, |req| match req {
        ControlRequest::Run(cmd) if cmd.program == "systemctl" => finished(true, "[Unit]", ""),
        _ => finished(false, "", "Access denied"),
    });
    assert_eq!(
        outcome,
        Err(ControlError::CommandFailed(
            "Failed to stop repoA-runner-0: Access denied".to_string()
        ))
    );
    assert_eq!(log.len(), 2);
    assert_eq!(log[1], "run sudo systemctl stop actions.runner.alice.repoA-runner-0");

    let (_, outcome) = drive(&runner_at("/r/repoA/0"), "start", Platform::Linux, |_| finished(true, "", ""));
    assert_eq!(outcome, Ok("Successfully started repoA-runner-0".to_string()));
}

#[test]
fn unit_command_that_cannot_launch_is_a_spawn_error() {
    let (_, outcome) = drive(&runner_at("/r/repoA/0"), "start", Platform::Linux, |req| match req {
        ControlRequest::Run(cmd) if cmd.program == "systemctl" => finished(true, "", ""),
        _ => ControlEvent::LaunchFailed("No such file or directory (os error 2)".to_string()),
    });
    assert_eq!(outcome, Err(ControlError::SpawnFailed("No such file or directory (os error 2)".to_string())));
}

#[test]
fn control_script_installs_before_start() {
    let (log, outcome) = drive(&runner_at("/r/repoA/0"), "start", Platform::Linux, |req| match req {
        ControlRequest::Run(cmd) if cmd.program == "systemctl" => finished(false, "", ""),
        ControlRequest::FileExists(_) => ControlEvent::Exists(true),
        ControlRequest::Run(cmd) if cmd.args.last().map(|a| a.as_str()) == Some("status") => {
            finished(true, "service not installed", "")
        }
        _ => finished(true, "", ""),
    });
    assert_eq!(outcome, Ok("Successfully started repoA-runner-0".to_string()));
    assert_eq!(
        log[2..].to_vec(),
        vec![
            "run sudo /r/repoA/0/svc.sh status",
            "run sudo /r/repoA/0/svc.sh install",
            "run sudo /r/repoA/0/svc.sh start",
        ]
    );
}

#[test]
fn failed_install_fails_the_start() {
    let (_, outcome) = drive(&runner_at("/r/repoA/0"), "start", Platform::MacOs, |req| match req {
        ControlRequest::FileExists(p) => ControlEvent::Exists(p.ends_with("svc.sh")),
        ControlRequest::Run(cmd) if cmd.args == vec!["status".to_string()] => {
            ControlEvent::LaunchFailed("denied".to_string())
        }
        _ => finished(false, "", "disk full"),
    });
    assert_eq!(
        outcome,
        Err(ControlError::CommandFailed("Failed to install service for repoA-runner-0: disk full".to_string()))
    );
}

#[test]
fn direct_start_and_stop() {
    let no_tiers = |req: &ControlRequest| match req {
        ControlRequest::FileExists(_) => ControlEvent::Exists(false),
        ControlRequest::Spawn(_) => ControlEvent::Launched,
        ControlRequest::Run(cmd) if cmd.program == "pkill" => finished(true, "", ""),
        _ => finished(false, "", ""),
    };
    let (log, outcome) = drive(&runner_at("/r/repoA/0"), "start", Platform::Linux, no_tiers);
    assert_eq!(outcome, Ok("Started repoA-runner-0".to_string()));
    assert_eq!(log.last().unwrap(), "spawn nohup /r/repoA/0/run.sh");
    let (log, outcome) = drive(&runner_at("/r/repoA/0"), "stop", Platform::Linux, no_tiers);
    assert_eq!(outcome, Ok("Stopped repoA-runner-0".to_string()));
    assert_eq!(log.last().unwrap(), "run pkill -f Runner.*/r/repoA/0");
}

#[test]
fn launchd_agent_commands() {
    let r = runner_at("/r/repoA/0");
    let (c, first) = control_runner(&r, "restart", Platform::MacOs, 501).unwrap();
    let agent = match first {
        ControlRequest::FileExists(p) => p,
        other => panic!("unexpected {:?}", other),
    };
    assert!(agent.ends_with("/Library/LaunchAgents/actions.runner.alice.repoA-runner-0.plist"));
    if dirs::home_dir().is_some() {
        assert!(!agent.starts_with('~'));
    }
    assert_eq!(c.action, ControlAction::Restart);
    let (log, outcome) = drive(&r, "restart", Platform::MacOs, |_| {
        ControlEvent::Exists(true)
    });
    assert!(matches!(outcome, Err(ControlError::SpawnFailed(_))));
    assert_eq!(log[1], "run launchctl kickstart -k gui/501/actions.runner.alice.repoA-runner-0");
    let (log, _) = drive(&r, "stop", Platform::MacOs, |req| match req {
        ControlRequest::FileExists(_) => ControlEvent::Exists(true),
        _ => finished(true, "", ""),
    });
    assert_eq!(log[1], format!("run launchctl unload {}", agent));
}

#[test]
fn failed_terminate_fails_the_stop() {
    let (log, outcome) = drive(&runner_at("/r/repoA/0"), "stop", Platform::Linux, |req| match req {
        ControlRequest::FileExists(_) => ControlEvent::Exists(false),
        ControlRequest::Run(cmd) if cmd.program == "pkill" => finished(false, "", "pkill: killing pid 7 failed"),
        _ => finished(false, "", ""),
    });
    assert_eq!(
        outcome,
        Err(ControlError::CommandFailed(
            "Failed to stop runner repoA-runner-0: pkill: killing pid 7 failed".to_string()
        ))
    );
    assert_eq!(log.last().unwrap(), "run pkill -f Runner.*/r/repoA/0");
    let (_, outcome) = drive(&runner_at("/r/repoA/0"), "stop", Platform::Linux, |req| match req {
        ControlRequest::FileExists(_) => ControlEvent::Exists(false),
        ControlRequest::Run(cmd) if cmd.program == "pkill" => ControlEvent::LaunchFailed("no pkill".to_string()),
        _ => finished(false, "", ""),
    });
    assert_eq!(outcome, Err(ControlError::SpawnFailed("Failed to stop runner repoA-runner-0".to_string())));
}

#[test]
fn failed_terminate_fails_the_restart_before_any_spawn() {
    let mut spawns = 0;
    let (log, outcome) = drive(&runner_at("/r/repoA/0"), "restart", Platform::Linux, |req| match req {
        ControlRequest::FileExists(_) => ControlEvent::Exists(false),
        ControlRequest::Run(cmd) if cmd.program == "pkill" => ControlEvent::LaunchFailed("no pkill".to_string()),
        ControlRequest::Spawn(_) => {
            spawns += 1;
            ControlEvent::Launched
        }
        _ => finished(false, "", ""),
    });
    assert_eq!(outcome, Err(ControlError::SpawnFailed("Failed to restart runner repoA-runner-0".to_string())));
    assert_eq!(spawns, 0);
    assert!(log.iter().all(|l| !l.starts_with("run pgrep")));
    let (_, outcome) = drive(&runner_at("/r/repoA/0"), "restart", Platform::Linux, |req| match req {
        ControlRequest::FileExists(_) => ControlEvent::Exists(false),
        ControlRequest::Run(cmd) if cmd.program == "pkill" => finished(false, "", "denied"),
        _ => finished(false, "", ""),
    });
    assert_eq!(
        outcome,
        Err(ControlError::CommandFailed("Failed to restart runner repoA-runner-0: denied".to_string()))
    );
}
