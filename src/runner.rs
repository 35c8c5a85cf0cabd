//! The runner record: identity of one runner instance and its last observed
//! run state.
use vstd::prelude::*;
use crate::text::{decimal, push_decimal, push_str};

verus! {

/// Run state of a runner, as the last probe found it.
#[derive(Clone, Copy, Debug, PartialEq, Eq, Structural)]
pub enum RunnerStatus {
    Active,
    Inactive,
    Failed,
    NotFound,
}

/// The lower-case name of a status.
pub open spec fn status_text(s: RunnerStatus) -> Seq<char> {
    match s {
        RunnerStatus::Active => "active"@,
        RunnerStatus::Inactive => "inactive"@,
        RunnerStatus::Failed => "failed"@,
        RunnerStatus::NotFound => "not-found"@,
    }
}

/// The one-character symbol shown for a status.
pub open spec fn status_symbol(s: RunnerStatus) -> Seq<char> {
    match s {
        RunnerStatus::Active => "●"@,
        RunnerStatus::Inactive => "○"@,
        RunnerStatus::Failed => "✗"@,
        RunnerStatus::NotFound => "?"@,
    }
}

impl RunnerStatus {
    pub fn as_str(&self) -> (r: &'static str)
        ensures
            r@ == status_text(*self),
    {
        match self {
            RunnerStatus::Active => "active",
            RunnerStatus::Inactive => "inactive",
            RunnerStatus::Failed => "failed",
            RunnerStatus::NotFound => "not-found",
        }
    }

    pub fn symbol(&self) -> (r: &'static str)
        ensures
            r@ == status_symbol(*self),
    {
        match self {
            RunnerStatus::Active => "●",
            RunnerStatus::Inactive => "○",
            RunnerStatus::Failed => "✗",
            RunnerStatus::NotFound => "?",
        }
    }
}

/// One runner instance: repository `repo`, slot `number`, directory `path`.
#[derive(Clone, Debug)]
pub struct Runner {
    pub name: String,
    pub number: u32,
    pub repo: String,
    pub status: RunnerStatus,
    pub service_name: String,
    pub path: String,
}

/// What a runner record holds, as plain values.
pub ghost struct RunnerView {
    pub name: Seq<char>,
    pub number: u32,
    pub repo: Seq<char>,
    pub status: RunnerStatus,
    pub service_name: Seq<char>,
    pub path: Seq<char>,
}

impl View for Runner {
    type V = RunnerView;

    open spec fn view(&self) -> RunnerView {
        RunnerView {
            name: self.name@,
            number: self.number,
            repo: self.repo@,
            status: self.status,
            service_name: self.service_name@,
            path: self.path@,
        }
    }
}

/// The views of a sequence of runners.
pub open spec fn runner_views(v: Seq<Runner>) -> Seq<RunnerView> {
    v.map_values(|r: Runner| r@)
}

/// Namespace prefix of every managed runner unit.
pub open spec fn unit_prefix() -> Seq<char> {
    "actions.runner."@
}

/// The service-manager name of slot `n` of repository `repo` of user `user`.
pub open spec fn service_name_of(user: Seq<char>, repo: Seq<char>, n: nat) -> Seq<char> {
    unit_prefix() + user + "."@ + repo + "-runner-"@ + decimal(n)
}

/// The name shown for slot `n` of repository `repo`.
pub open spec fn display_name_of(repo: Seq<char>, n: nat) -> Seq<char> {
    repo + "-runner-"@ + decimal(n)
}

/// The short name of slot `n`.
pub open spec fn slot_name_of(n: nat) -> Seq<char> {
    "runner-"@ + decimal(n)
}

/// Computes the service-manager name of slot `number` of repository `repo`.
pub fn service_name(username: &str, repo: &str, number: u32) -> (r: String)
    ensures
        r@ == service_name_of(username@, repo@, number as nat),
{
    let mut s = String::new();
    push_str(&mut s, "actions.runner.");
    push_str(&mut s, username);
    push_str(&mut s, ".");
    push_str(&mut s, repo);
    push_str(&mut s, "-runner-");
    push_decimal(&mut s, number as u64);
    assert(s@ =~= service_name_of(username@, repo@, number as nat));
    s
}

/// Computes the short name of slot `number`.
pub fn slot_name(number: u32) -> (r: String)
    ensures
        r@ == slot_name_of(number as nat),
{
    let mut s = String::new();
    push_str(&mut s, "runner-");
    push_decimal(&mut s, number as u64);
    assert(s@ =~= slot_name_of(number as nat));
    s
}

impl Runner {
    pub fn display_name(&self) -> (r: String)
        ensures
            r@ == display_name_of(self.repo@, self.number as nat),
    {
        let mut s = String::new();
        push_str(&mut s, self.repo.as_str());
        push_str(&mut s, "-runner-");
        push_decimal(&mut s, self.number as u64);
        assert(s@ =~= display_name_of(self.repo@, self.number as nat));
        s
    }

    /// An independently owned copy of this record.
    pub fn snapshot(&self) -> (r: Runner)
        ensures
            r == *self,
    {
        Runner {
            name: self.name.clone(),
            number: self.number,
            repo: self.repo.clone(),
            status: self.status,
            service_name: self.service_name.clone(),
            path: self.path.clone(),
        }
    }
}

/// An independently owned copy of a runner list.
pub fn snapshot_runners(runners: &Vec<Runner>) -> (r: Vec<Runner>)
    ensures
        r@ == runners@,
{
    let mut r: Vec<Runner> = Vec::new();
    let mut i: usize = 0;
    while i < runners.len()
        invariant
            i <= runners@.len(),
            r@ == runners@.subrange(0, i as int),
        decreases runners.len() - i,
    {
        r.push(runners[i].snapshot());
        assert(r@ =~= runners@.subrange(0, i + 1));
        i = i + 1;
    }
    assert(r@ =~= runners@);
    r
}

/// The service name depends on user, repository and slot alone: equal
/// inputs give the same name.
pub proof fn lemma_service_name_deterministic(
    u1: Seq<char>,
    r1: Seq<char>,
    n1: nat,
    u2: Seq<char>,
    r2: Seq<char>,
    n2: nat,
)
    requires
        u1 == u2,
        r1 == r2,
        n1 == n2,
    ensures
        service_name_of(u1, r1, n1) == service_name_of(u2, r2, n2),
{
}

} // verus!
