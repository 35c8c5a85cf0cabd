//! Discovery of runner instances under the runner root: `<root>/<repo>/<slot>/`
//! directories that hold a launch script.
use vstd::prelude::*;
use crate::runner::{
    runner_views, service_name, service_name_of, slot_name, slot_name_of, Runner, RunnerStatus,
    RunnerView,
};
use crate::text::{chars_of, child_path, join_path, parse_u32, parse_u32_spec};

verus! {

/// A slot directory found under a repository directory.
#[derive(Clone, Debug)]
pub struct SlotEntry {
    /// The directory's own name.
    pub name: String,
    /// Whether the directory holds the launch script.
    pub has_launch_script: bool,
}

/// A repository directory found under the runner root, with its
/// subdirectories.
#[derive(Clone, Debug)]
pub struct RepoEntry {
    pub name: String,
    pub slots: Vec<SlotEntry>,
}

/// Why discovery could not run.
#[derive(Clone, Debug, PartialEq, Eq)]
pub enum DiscoveryError {
    /// The home directory, under which the runner root lies, is unknown.
    NoHomeDirectory,
    /// Reading the runner root failed.
    Traversal(String),
}

/// The slot number that a slot directory name denotes: its decimal value, or
/// 0 when it is not a `u32`.
pub open spec fn slot_number_of(name: Seq<char>) -> u32 {
    match parse_u32_spec(name) {
        Some(n) => n,
        None => 0,
    }
}

/// The runner that a slot directory of repository `repo` under the runner
/// root `root` stands for; its directory is `<root>/<repo>/<slot>`.
pub open spec fn slot_runner(
    user: Seq<char>,
    root: Seq<char>,
    repo: Seq<char>,
    slot: SlotEntry,
) -> RunnerView {
    let n = slot_number_of(slot.name@);
    RunnerView {
        name: slot_name_of(n as nat),
        number: n,
        repo,
        status: RunnerStatus::NotFound,
        service_name: service_name_of(user, repo, n as nat),
        path: child_path(child_path(root, repo), slot.name@),
    }
}

/// The runners of one repository directory, in the order of its slots:
/// one for each slot directory that holds the launch script.
pub open spec fn repo_runners(
    user: Seq<char>,
    root: Seq<char>,
    repo: Seq<char>,
    slots: Seq<SlotEntry>,
) -> Seq<RunnerView>
    decreases slots.len(),
{
    if slots.len() == 0 {
        seq![]
    } else {
        let rest = repo_runners(user, root, repo, slots.drop_last());
        if slots.last().has_launch_script {
            rest.push(slot_runner(user, root, repo, slots.last()))
        } else {
            rest
        }
    }
}

/// The runners of all repository directories with a non-empty name, in
/// the order of the listing.
pub open spec fn listed_runners(user: Seq<char>, root: Seq<char>, repos: Seq<RepoEntry>) -> Seq<
    RunnerView,
>
    decreases repos.len(),
{
    if repos.len() == 0 {
        seq![]
    } else {
        let rest = listed_runners(user, root, repos.drop_last());
        let r = repos.last();
        if r.name@.len() > 0 {
            rest + repo_runners(user, root, r.name@, r.slots@)
        } else {
            rest
        }
    }
}

/// What discovery gives every runner it finds: the service name, short
/// name and status that follow from its repository and slot number, and a
/// directory `<root>/<repo>/<slot>` whose slot name denotes its number.
pub open spec fn discovered_identity(user: Seq<char>, root: Seq<char>, v: RunnerView) -> bool {
    &&& v.service_name == service_name_of(user, v.repo, v.number as nat)
    &&& v.name == slot_name_of(v.number as nat)
    &&& v.status == RunnerStatus::NotFound
    &&& exists|s: Seq<char>|
        #[trigger] slot_number_of(s) == v.number && v.path == child_path(child_path(root, v.repo), s)
}

proof fn lemma_repo_runners_identity(
    user: Seq<char>,
    root: Seq<char>,
    repo: Seq<char>,
    slots: Seq<SlotEntry>,
)
    ensures
        forall|i: int|
            0 <= i < repo_runners(user, root, repo, slots).len() ==> #[trigger] discovered_identity(
                user,
                root,
                repo_runners(user, root, repo, slots)[i],
            ),
    decreases slots.len(),
{
    if slots.len() > 0 {
        lemma_repo_runners_identity(user, root, repo, slots.drop_last());
        let v = slot_runner(user, root, repo, slots.last());
        assert(slot_number_of(slots.last().name@) == v.number);
        assert(discovered_identity(user, root, v));
        let rest = repo_runners(user, root, repo, slots.drop_last());
        if slots.last().has_launch_script {
            assert forall|i: int| 0 <= i < rest.push(v).len() implies #[trigger] discovered_identity(
                user,
                root,
                rest.push(v)[i],
            ) by {
                if i < rest.len() {
                    assert(rest.push(v)[i] == rest[i]);
                }
            }
        }
    }
}

/// Every runner of a listing has the identity that discovery gives.
pub proof fn lemma_listed_runners_identity(user: Seq<char>, root: Seq<char>, repos: Seq<RepoEntry>)
    ensures
        forall|i: int|
            0 <= i < listed_runners(user, root, repos).len() ==> #[trigger] discovered_identity(
                user,
                root,
                listed_runners(user, root, repos)[i],
            ),
    decreases repos.len(),
{
    if repos.len() > 0 {
        lemma_listed_runners_identity(user, root, repos.drop_last());
        let r = repos.last();
        if r.name@.len() > 0 {
            lemma_repo_runners_identity(user, root, r.name@, r.slots@);
            let a = listed_runners(user, root, repos.drop_last());
            let b = repo_runners(user, root, r.name@, r.slots@);
            assert(listed_runners(user, root, repos) == a + b);
            assert forall|i: int| 0 <= i < (a + b).len() implies #[trigger] discovered_identity(
                user,
                root,
                (a + b)[i],
            ) by {
                if i < a.len() {
                    assert((a + b)[i] == a[i]);
                } else {
                    assert((a + b)[i] == b[i - a.len()]);
                }
            }
        } else {
            assert(listed_runners(user, root, repos) == listed_runners(user, root, repos.drop_last()));
        }
    }
}

/// Lexicographic order on character sequences, by code point.
pub open spec fn chars_lt(a: Seq<char>, b: Seq<char>) -> bool
    decreases a.len(),
{
    if a.len() == 0 {
        b.len() > 0
    } else if b.len() == 0 {
        false
    } else if a[0] != b[0] {
        (a[0] as int) < (b[0] as int)
    } else {
        chars_lt(a.drop_first(), b.drop_first())
    }
}

/// `a` comes strictly before `b` in (repo, number) order.
pub open spec fn runner_lt(a: RunnerView, b: RunnerView) -> bool {
    chars_lt(a.repo, b.repo) || (a.repo == b.repo && a.number < b.number)
}

/// `a` comes before `b`, or ties with it, in (repo, number) order.
pub open spec fn runner_le(a: RunnerView, b: RunnerView) -> bool {
    chars_lt(a.repo, b.repo) || (a.repo == b.repo && a.number <= b.number)
}

/// Each runner comes before or ties with the next one.
pub open spec fn runners_sorted(v: Seq<RunnerView>) -> bool {
    forall|k: int| 0 <= k < v.len() - 1 ==> #[trigger] runner_le(v[k], v[k + 1])
}

/// Where insertion puts `x` into the sorted list `v`: after every runner
/// that does not come strictly after it.
pub open spec fn insert_position(v: Seq<RunnerView>, x: RunnerView) -> int
    decreases v.len(),
{
    if v.len() == 0 {
        0
    } else if runner_lt(x, v.last()) {
        insert_position(v.drop_last(), x)
    } else {
        v.len() as int
    }
}

/// `v` sorted by (repo, number), runners that tie keeping their order: each
/// runner in turn is inserted after those before it that do not come
/// strictly after it.
pub open spec fn stable_sorted(v: Seq<RunnerView>) -> Seq<RunnerView>
    decreases v.len(),
{
    if v.len() == 0 {
        v
    } else {
        let rest = stable_sorted(v.drop_last());
        rest.insert(insert_position(rest, v.last()), v.last())
    }
}

/// Of two different character sequences, one comes first.
pub proof fn lemma_chars_lt_total(a: Seq<char>, b: Seq<char>)
    ensures
        chars_lt(a, b) || a == b || chars_lt(b, a),
        !(chars_lt(a, b) && chars_lt(b, a)),
        !chars_lt(a, a),
    decreases a.len(),
{
    if a.len() > 0 && b.len() > 0 {
        lemma_chars_lt_total(a.drop_first(), b.drop_first());
        if a[0] == b[0] && a.drop_first() =~= b.drop_first() {
            assert forall|k: int| 0 <= k < a.len() implies a[k] == b[k] by {
                if k > 0 {
                    assert(a[k] == a.drop_first()[k - 1]);
                    assert(b[k] == b.drop_first()[k - 1]);
                }
            }
            assert(a =~= b);
        }
        lemma_chars_lt_total(a.drop_first(), a.drop_first());
    } else if a.len() > 0 {
        lemma_chars_lt_total(a.drop_first(), a.drop_first());
    } else if b.len() == 0 {
        assert(a =~= b);
    }
}

proof fn lemma_runner_order_total(a: RunnerView, b: RunnerView)
    ensures
        !runner_lt(a, b) ==> runner_le(b, a),
        runner_lt(a, b) ==> runner_le(a, b),
{
    lemma_chars_lt_total(a.repo, b.repo);
}

/// Whether `a` precedes `b` in code-point order.
fn chars_before(a: &Vec<char>, b: &Vec<char>) -> (r: bool)
    ensures
        r == chars_lt(a@, b@),
{
    let mut i: usize = 0;
    assert(a@.skip(0) =~= a@);
    assert(b@.skip(0) =~= b@);
    while i < a.len() && i < b.len() && a[i] == b[i]
        invariant
            i <= a@.len(),
            i <= b@.len(),
            chars_lt(a@.skip(i as int), b@.skip(i as int)) == chars_lt(a@, b@),
        decreases a.len() - i,
    {
        assert(a@.skip(i as int).drop_first() =~= a@.skip(i + 1));
        assert(b@.skip(i as int).drop_first() =~= b@.skip(i + 1));
        i = i + 1;
    }
    if i == a.len() {
        i < b.len()
    } else if i == b.len() {
        false
    } else {
        a[i] < b[i]
    }
}

/// Whether runner `a` comes strictly before runner `b`.
fn runner_before(a: &Runner, b: &Runner) -> (r: bool)
    ensures
        r == runner_lt(a@, b@),
{
    let ar = chars_of(a.repo.as_str());
    let br = chars_of(b.repo.as_str());
    if chars_before(&ar, &br) {
        true
    } else if chars_before(&br, &ar) {
        false
    } else {
        proof {
            lemma_chars_lt_total(ar@, br@);
        }
        a.number < b.number
    }
}

/// Sorts runners by (repo, number); runners that tie keep their order.
pub fn sort_runners(v: &Vec<Runner>) -> (r: Vec<Runner>)
    ensures
        runner_views(r@).to_multiset() == runner_views(v@).to_multiset(),
        runners_sorted(runner_views(r@)),
        runner_views(r@) == stable_sorted(runner_views(v@)),
{
    let mut out: Vec<Runner> = Vec::new();
    let mut i: usize = 0;
    assert(runner_views(out@) =~= runner_views(v@.subrange(0, 0)));
    while i < v.len()
        invariant
            i <= v@.len(),
            runner_views(out@).to_multiset() == runner_views(v@.subrange(0, i as int)).to_multiset(),
            runners_sorted(runner_views(out@)),
            runner_views(out@) == stable_sorted(runner_views(v@.subrange(0, i as int))),
        decreases v.len() - i,
    {
        let x = v[i].snapshot();
        let mut p = out.len();
        assert(runner_views(out@).subrange(0, p as int) =~= runner_views(out@));
        while p > 0 && runner_before(&x, &out[p - 1])
            invariant
                p <= out@.len(),
                p < out@.len() ==> runner_lt(x@, out@[p as int]@),
                insert_position(runner_views(out@).subrange(0, p as int), x@) == insert_position(
                    runner_views(out@),
                    x@,
                ),
            decreases p,
        {
            assert(runner_views(out@).subrange(0, p as int).drop_last() =~= runner_views(out@).subrange(0, p - 1));
            p = p - 1;
        }
        proof {
            let w = runner_views(out@).subrange(0, p as int);
            if p > 0 {
                assert(w.last() == out@[p - 1]@);
            } else {
                assert(w.len() == 0);
            }
            let vs = runner_views(v@.subrange(0, i + 1));
            assert(vs.drop_last() =~= runner_views(v@.subrange(0, i as int)));
            assert(vs.last() == x@);
        }
        proof {
            if p > 0 {
                lemma_runner_order_total(x@, out@[p - 1]@);
            }
            if p < out@.len() {
                lemma_runner_order_total(x@, out@[p as int]@);
            }
        }
        let ghost before = out@;
        out.insert(p, x);
        proof {
            let bv = runner_views(before);
            assert(runner_views(out@) =~= bv.insert(p as int, x@));
            vstd::seq_lib::to_multiset_insert(bv, p as int, x@);
            let pre = runner_views(v@.subrange(0, i as int));
            assert(runner_views(v@.subrange(0, i + 1)) =~= pre.push(x@));
            vstd::seq_lib::to_multiset_build(pre, x@);
            let w = runner_views(out@);
            assert forall|k: int| 0 <= k < w.len() - 1 implies #[trigger] runner_le(w[k], w[k + 1]) by {
                if k < p - 1 {
                    assert(runner_le(bv[k], bv[k + 1]));
                } else if k > p {
                    let j = k - 1;
                    assert(runner_le(bv[j], bv[j + 1]));
                }
            }
        }
        i = i + 1;
    }
    assert(v@.subrange(0, i as int) =~= v@);
    out
}


/// The slot number that a slot directory name denotes.
pub fn parse_slot_number(name: &str) -> (r: u32)
    ensures
        r == slot_number_of(name@),
{
    match parse_u32(name) {
        Some(n) => n,
        None => 0,
    }
}

/// Appends to `runners` the runners of one repository directory named
/// `repo_name`, in the order of its slots.
fn discover_repo_runners(
    root: &str,
    slots: &Vec<SlotEntry>,
    repo_name: &str,
    username: &str,
    runners: &mut Vec<Runner>,
)
    ensures
        runner_views(final(runners)@) == runner_views(old(runners)@) + repo_runners(
            username@,
            root@,
            repo_name@,
            slots@,
        ),
{
    let repo_dir = join_path(root, repo_name);
    let ghost start = runner_views(runners@);
    let mut j: usize = 0;
    assert(slots@.subrange(0, 0) =~= Seq::<SlotEntry>::empty());
    assert(runner_views(runners@) =~= start + repo_runners(username@, root@, repo_name@, slots@.subrange(0, 0)));
    while j < slots.len()
        invariant
            j <= slots@.len(),
            repo_dir@ == child_path(root@, repo_name@),
            runner_views(runners@) == start + repo_runners(
                username@,
                root@,
                repo_name@,
                slots@.subrange(0, j as int),
            ),
        decreases slots.len() - j,
    {
        let slot = &slots[j];
        assert(slots@.subrange(0, j + 1).drop_last() =~= slots@.subrange(0, j as int));
        if slot.has_launch_script {
            let number = parse_slot_number(slot.name.as_str());
            let runner = Runner {
                name: slot_name(number),
                number,
                repo: repo_name.to_owned(),
                status: RunnerStatus::NotFound,
                service_name: service_name(username, repo_name, number),
                path: join_path(repo_dir.as_str(), slot.name.as_str()),
            };
            assert(runner@ == slot_runner(username@, root@, repo_name@, *slot));
            let ghost before = runners@;
            runners.push(runner);
            assert(runner_views(runners@) =~= runner_views(before).push(runner@));
        }
        j = j + 1;
    }
    assert(slots@.subrange(0, j as int) =~= slots@);
}

/// The runners that a listing of the runner root `root` describes, sorted
/// by (repo, number): one for each slot directory holding the launch
/// script, under each repository directory whose name is not empty, with
/// directory `<root>/<repo>/<slot>`. Each starts with status `NotFound`,
/// until it is probed.
pub fn discover_runners(root: &str, username: &str, repos: &Vec<RepoEntry>) -> (r: Vec<Runner>)
    ensures
        runner_views(r@).to_multiset() == listed_runners(username@, root@, repos@).to_multiset(),
        runners_sorted(runner_views(r@)),
        runner_views(r@) == stable_sorted(listed_runners(username@, root@, repos@)),
        forall|i: int|
            0 <= i < r@.len() ==> #[trigger] discovered_identity(username@, root@, r@[i]@),
{
    let mut found: Vec<Runner> = Vec::new();
    let mut i: usize = 0;
    assert(runner_views(found@) =~= listed_runners(username@, root@, repos@.subrange(0, 0)));
    while i < repos.len()
        invariant
            i <= repos@.len(),
            runner_views(found@) == listed_runners(username@, root@, repos@.subrange(0, i as int)),
        decreases repos.len() - i,
    {
        let repo = &repos[i];
        assert(repos@.subrange(0, i + 1).drop_last() =~= repos@.subrange(0, i as int));
        if !repo.name.as_str().is_empty() {
            proof {
                assert(repo.name@.len() > 0) by {
                    if repo.name@.len() == 0 {
                        assert(repo.name@ =~= Seq::<char>::empty());
                    }
                }
            }
            discover_repo_runners(root, &repo.slots, repo.name.as_str(), username, &mut found);
        } else {
            assert(repo.name@.len() == 0);
        }
        i = i + 1;
    }
    assert(repos@.subrange(0, i as int) =~= repos@);
    let sorted = sort_runners(&found);
    proof {
        broadcast use vstd::seq_lib::group_to_multiset_ensures;

        let listed = listed_runners(username@, root@, repos@);
        lemma_listed_runners_identity(username@, root@, repos@);
        assert forall|i: int| 0 <= i < sorted@.len() implies #[trigger] discovered_identity(
            username@,
            root@,
            sorted@[i]@,
        ) by {
            let sv = runner_views(sorted@);
            assert(sv[i] == sorted@[i]@);
            assert(sv.contains(sv[i]));
            assert(sv.to_multiset().count(sv[i]) > 0);
            assert(listed.contains(sv[i]));
            let j = choose|j: int| 0 <= j < listed.len() && listed[j] == sv[i];
            assert(discovered_identity(username@, root@, listed[j]));
        }
    }
    sorted
}

/// The runner root under home directory `home`.
pub open spec fn root_under(home: Seq<char>) -> Seq<char> {
    child_path(home, "action-runners"@)
}

/// The runner root: the `action-runners` directory under the home
/// directory, when that is known.
pub fn runner_root(home: Option<String>) -> (r: Result<String, DiscoveryError>)
    ensures
        match home {
            Some(h) => r matches Ok(root) && root@ == root_under(h@),
            None => r == Err::<String, DiscoveryError>(DiscoveryError::NoHomeDirectory),
        },
{
    match home {
        Some(h) => Ok(join_path(h.as_str(), "action-runners")),
        None => Err(DiscoveryError::NoHomeDirectory),
    }
}

/// Relies on `dirs::home_dir`: the current user's home directory, if the
/// platform reports one. It reads the environment, so nothing is promised of
/// its value.
#[verifier::external_body]
fn home_directory() -> (r: Option<String>) {
    dirs::home_dir().map(|p| p.to_string_lossy().into_owned())
}

/// Locates the runner root of the current user.
pub fn locate_runner_root() -> (r: Result<String, DiscoveryError>)
    ensures
        r matches Err(e) ==> e == DiscoveryError::NoHomeDirectory,
{
    runner_root(home_directory())
}

/// Code-point order is transitive.
pub proof fn lemma_chars_lt_trans(a: Seq<char>, b: Seq<char>, c: Seq<char>)
    requires
        chars_lt(a, b),
        chars_lt(b, c),
    ensures
        chars_lt(a, c),
    decreases a.len(),
{
    if a.len() > 0 && b.len() > 0 && c.len() > 0 {
        if a[0] == b[0] && b[0] == c[0] {
            lemma_chars_lt_trans(a.drop_first(), b.drop_first(), c.drop_first());
        }
    }
}

proof fn lemma_runner_le_trans(a: RunnerView, b: RunnerView, c: RunnerView)
    requires
        runner_le(a, b),
        runner_le(b, c),
    ensures
        runner_le(a, c),
{
    if chars_lt(a.repo, b.repo) && chars_lt(b.repo, c.repo) {
        lemma_chars_lt_trans(a.repo, b.repo, c.repo);
    }
}

/// In a sorted runner list each runner comes before or ties with every later
/// one.
pub proof fn lemma_sorted_pairwise(v: Seq<RunnerView>, i: int, j: int)
    requires
        runners_sorted(v),
        0 <= i <= j < v.len(),
    ensures
        runner_le(v[i], v[j]),
    decreases j - i,
{
    if i == j {
        lemma_chars_lt_total(v[i].repo, v[i].repo);
    } else {
        lemma_sorted_pairwise(v, i, j - 1);
        let k = j - 1;
        assert(runner_le(v[k], v[k + 1]));
        lemma_runner_le_trans(v[i], v[j - 1], v[j]);
    }
}

/// No two runners of the list share a (repo, number) identity.
pub open spec fn distinct_identities(v: Seq<RunnerView>) -> bool {
    forall|i: int, j: int|
        0 <= i < v.len() && 0 <= j < v.len() && i != j ==> !(#[trigger] v[i].repo == #[trigger] v[j].repo
            && v[i].number == v[j].number)
}

/// Two sorted lists of the same runners, no two of which share a (repo,
/// number) identity, are the same list: discovery orders the same runners
/// the same way each time, whatever order the directories were read in.
pub proof fn lemma_sorted_runners_unique(x: Seq<RunnerView>, y: Seq<RunnerView>)
    requires
        runners_sorted(x),
        runners_sorted(y),
        x.to_multiset() == y.to_multiset(),
        distinct_identities(x),
    ensures
        x == y,
    decreases x.len(),
{
    broadcast use vstd::seq_lib::group_to_multiset_ensures;

    assert(x.len() == x.to_multiset().len());
    assert(y.len() == y.to_multiset().len());
    if x.len() == 0 {
        assert(x =~= y);
    } else {
        assert(x.contains(x[0]));
        assert(y.to_multiset().count(x[0]) > 0);
        assert(y.contains(x[0]));
        let j = choose|j: int| 0 <= j < y.len() && y[j] == x[0];
        assert(y.contains(y[0]));
        assert(x.to_multiset().count(y[0]) > 0);
        assert(x.contains(y[0]));
        let i = choose|i: int| 0 <= i < x.len() && x[i] == y[0];
        lemma_sorted_pairwise(y, 0, j);
        lemma_sorted_pairwise(x, 0, i);
        lemma_chars_lt_total(x[0].repo, y[0].repo);
        if i != 0 {
            assert(!(x[0].repo == x[i].repo && x[0].number == x[i].number));
        }
        assert(y[0] == x[0]);
        assert(x.remove(0) =~= x.drop_first());
        assert(y.remove(0) =~= y.drop_first());
        assert(x.drop_first().to_multiset() =~= y.drop_first().to_multiset());
        let xt = x.drop_first();
        let yt = y.drop_first();
        assert forall|k: int| 0 <= k < xt.len() - 1 implies #[trigger] runner_le(xt[k], xt[k + 1]) by {
            assert(runner_le(x[k + 1], x[k + 1 + 1]));
        }
        assert forall|k: int| 0 <= k < yt.len() - 1 implies #[trigger] runner_le(yt[k], yt[k + 1]) by {
            assert(runner_le(y[k + 1], y[k + 1 + 1]));
        }
        assert forall|a: int, b: int|
            0 <= a < xt.len() && 0 <= b < xt.len() && a != b implies !(#[trigger] xt[a].repo
            == #[trigger] xt[b].repo && xt[a].number == xt[b].number) by {
            assert(x[a + 1] == xt[a] && x[b + 1] == xt[b]);
        }
        lemma_sorted_runners_unique(xt, yt);
        assert forall|k: int| 0 <= k < x.len() implies x[k] == y[k] by {
            if k > 0 {
                assert(x[k] == xt[k - 1]);
                assert(y[k] == yt[k - 1]);
            }
        }
        assert(x =~= y);
    }
}

/// Two discoveries over the same listing find the same runner identities,
/// and, when no two runners share a (repo, number) identity, in the same
/// order.
pub proof fn lemma_discovery_stable(
    user: Seq<char>,
    root: Seq<char>,
    repos: Seq<RepoEntry>,
    first: Seq<RunnerView>,
    second: Seq<RunnerView>,
)
    requires
        first.to_multiset() == listed_runners(user, root, repos).to_multiset(),
        second.to_multiset() == listed_runners(user, root, repos).to_multiset(),
        runners_sorted(first),
        runners_sorted(second),
    ensures
        first.to_multiset() == second.to_multiset(),
        distinct_identities(first) ==> first == second,
{
    if distinct_identities(first) {
        lemma_sorted_runners_unique(first, second);
    }
}

} // verus!
