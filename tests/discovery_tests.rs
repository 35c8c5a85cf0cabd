use runner_dashboard::discovery::{
    discover_runners, parse_slot_number, runner_root, sort_runners, DiscoveryError, RepoEntry,
    SlotEntry,
};
use runner_dashboard::runner::{service_name, Runner, RunnerStatus};

const ROOT: &str = "/home/u/action-runners";

fn slot(_repo: &str, name: &str, marker: bool) -> SlotEntry {
    SlotEntry { name: name.to_string(), has_launch_script: marker }
}

fn repo(name: &str, slots: Vec<SlotEntry>) -> RepoEntry {
    RepoEntry { name: name.to_string(), slots }
}

#[test]
fn two_slots_of_one_repo_in_order() {
    let listing = vec![repo("repoA", vec![slot("repoA", "1", true), slot("repoA", "0", true)])];
    let runners = discover_runners(ROOT, "alice", &listing);
    assert_eq!(runners.len(), 2);
    assert_eq!(runners[0].repo, "repoA");
    assert_eq!(runners[0].number, 0);
    assert_eq!(runners[1].number, 1);
    assert_eq!(runners[0].service_name, "actions.runner.alice.repoA-runner-0");
    assert_eq!(runners[1].service_name, "actions.runner.alice.repoA-runner-1");
    assert_eq!(runners[0].name, "runner-0");
    assert_eq!(runners[0].path, "/home/u/action-runners/repoA/0");
    assert_eq!(runners[0].status, RunnerStatus::NotFound);
    assert_eq!(runners[1].status, RunnerStatus::NotFound);
}

#[test]
fn slots_without_launch_script_and_unnamed_repos_are_ignored() {
    let listing = vec![
        repo("repoA", vec![slot("repoA", "0", false), slot("repoA", "2", true)]),
        repo("", vec![slot("", "3", true)]),
    ];
    let runners = discover_runners(ROOT, "bob", &listing);
    assert_eq!(runners.len(), 1);
    assert_eq!(runners[0].number, 2);
}

#[test]
fn empty_listing_gives_no_runners() {
    let runners = discover_runners(ROOT, "bob", &Vec::new());
    assert!(runners.is_empty());
}

#[test]
fn ordering_is_by_repo_then_number() {
    let listing = vec![
        repo("zeta", vec![slot("zeta", "0", true)]),
        repo("alpha", vec![slot("alpha", "10", true), slot("alpha", "9", true)]),
        repo("Beta", vec![slot("Beta", "1", true)]),
    ];
    let runners = discover_runners(ROOT, "u", &listing);
    let keys: Vec<(String, u32)> = runners.iter().map(|r| (r.repo.clone(), r.number)).collect();
    assert_eq!(
        keys,
        vec![
            ("Beta".to_string(), 1),
            ("alpha".to_string(), 9),
            ("alpha".to_string(), 10),
            ("zeta".to_string(), 0),
        ]
    );
}

#[test]
fn repeated_discovery_gives_same_identities_and_order() {
    let listing = vec![
        repo("b", vec![slot("b", "1", true), slot("b", "0", true)]),
        repo("a", vec![slot("a", "3", true)]),
    ];
    let mut reordered = listing.clone();
    reordered.reverse();
    let first = discover_runners(ROOT, "u", &listing);
    let second = discover_runners(ROOT, "u", &reordered);
    let ids = |v: &Vec<Runner>| -> Vec<(String, String, String)> {
        v.iter().map(|r| (r.repo.clone(), r.service_name.clone(), r.path.clone())).collect()
    };
    assert_eq!(ids(&first), ids(&second));
}

#[test]
fn service_name_is_deterministic() {
    let a = service_name("u", "repo", 7);
    let b = service_name("u", "repo", 7);
    assert_eq!(a, b);
    assert_eq!(a, "actions.runner.u.repo-runner-7");
    assert_eq!(service_name("x", "y", 4294967295), "actions.runner.x.y-runner-4294967295");
}

#[test]
fn unparsable_slot_names_count_as_zero() {
    assert_eq!(parse_slot_number("12"), 12);
    assert_eq!(parse_slot_number("+5"), 5);
    assert_eq!(parse_slot_number("abc"), 0);
    assert_eq!(parse_slot_number(""), 0);
    assert_eq!(parse_slot_number("+"), 0);
    assert_eq!(parse_slot_number("-1"), 0);
    assert_eq!(parse_slot_number("4294967295"), 4294967295);
    assert_eq!(parse_slot_number("4294967296"), 0);
    let listing = vec![repo("r", vec![slot("r", "backup", true)])];
    let runners = discover_runners(ROOT, "u", &listing);
    assert_eq!(runners[0].number, 0);
    assert_eq!(runners[0].service_name, "actions.runner.u.r-runner-0");
}

#[test]
fn sort_keeps_ties_in_order() {
    let mk = |path: &str, n: u32| Runner {
        name: format!("runner-{}", n),
        number: n,
        repo: "r".to_string(),
        status: RunnerStatus::NotFound,
        service_name: format!("actions.runner.u.r-runner-{}", n),
        path: path.to_string(),
    };
    let v = vec![mk("/x", 1), mk("/b", 0), mk("/a", 0)];
    let sorted = sort_runners(&v);
    let paths: Vec<&str> = sorted.iter().map(|r| r.path.as_str()).collect();
    assert_eq!(paths, vec!["/b", "/a", "/x"]);
}

#[test]
fn runner_root_joins_home() {
    assert_eq!(runner_root(Some("/home/u".to_string())), Ok("/home/u/action-runners".to_string()));
    assert_eq!(runner_root(Some("/home/u/".to_string())), Ok("/home/u/action-runners".to_string()));
    assert_eq!(runner_root(None), Err(DiscoveryError::NoHomeDirectory));
}
