//! The status prober: resolves the run state of every runner from a fixed
//! number of batched external queries, whatever the number of runners.
use vstd::prelude::*;
use crate::runner::{Runner, RunnerStatus, RunnerView};
use crate::text::{
    chars_of, contains_chars, fields_of, lines_of, parent_dir_name, parent_name, parse_u32_chars,
    parse_u32_spec, same_chars, seq_contains, split_fields, split_lines, views,
};

verus! {

/// The host's kind of service manager, chosen once at startup.
#[derive(Clone, Copy, Debug, PartialEq, Eq, Structural)]
pub enum Platform {
    /// systemd units, controlled through `systemctl`.
    Linux,
    /// launchd agents, controlled through `launchctl`.
    MacOs,
}

/// One batched external query of a probe.
#[derive(Clone, Copy, Debug, PartialEq, Eq, Structural)]
pub enum ProbeQuery {
    /// The command lines of all live runner processes, one per line
    /// (`pgrep -af Runner`).
    ProcessListing,
    /// The runner units that systemd knows, one per line, with the fields
    /// unit, load state, active state (`systemctl list-units --all --plain
    /// --no-legend --full 'actions.runner.*'`).
    UnitTable,
    /// The launchd agents, one per line, with the fields pid, last exit
    /// status, label (`launchctl list`).
    AgentTable,
}

/// What the queries of a probe returned. A query whose command failed or
/// exited with a non-zero status is `None`.
#[derive(Clone, Debug)]
pub struct ProbeObservations {
    /// Answer to [`ProbeQuery::ProcessListing`].
    pub process_listing: Option<String>,
    /// Answer to [`ProbeQuery::UnitTable`] or [`ProbeQuery::AgentTable`].
    pub service_table: Option<String>,
    /// For each runner, in order, whether its directory holds the
    /// configuration marker; a runner past the end counts as without.
    pub config_markers: Vec<bool>,
}

/// The service-manager query of a platform.
pub open spec fn table_query(p: Platform) -> ProbeQuery {
    match p {
        Platform::Linux => ProbeQuery::UnitTable,
        Platform::MacOs => ProbeQuery::AgentTable,
    }
}

/// The queries that probing `n` runners issues: none for no runners, else
/// the process listing and the service-manager table.
pub open spec fn probe_queries(n: nat, p: Platform) -> Seq<ProbeQuery> {
    if n == 0 {
        seq![]
    } else {
        seq![ProbeQuery::ProcessListing, table_query(p)]
    }
}

/// The queries of a probe do not depend on how many runners there are:
/// at most two, the process listing among them at most once, and the same
/// for every non-empty list.
pub proof fn lemma_probe_cost_constant(n: nat, m: nat, p: Platform)
    ensures
        probe_queries(n, p).len() <= 2,
        n > 0 && m > 0 ==> probe_queries(n, p) == probe_queries(m, p),
        n > 0 ==> probe_queries(n, p)[0] == ProbeQuery::ProcessListing && probe_queries(n, p)[1]
            != ProbeQuery::ProcessListing,
{
}

/// The queries to issue before probing `runners`.
pub fn probe_plan(runners: &Vec<Runner>, platform: Platform) -> (r: Vec<ProbeQuery>)
    ensures
        r@ == probe_queries(runners@.len(), platform),
        r@.len() <= 2,
{
    if runners.len() == 0 {
        return Vec::new();
    }
    let table = match platform {
        Platform::Linux => ProbeQuery::UnitTable,
        Platform::MacOs => ProbeQuery::AgentTable,
    };
    let mut r: Vec<ProbeQuery> = Vec::new();
    r.push(ProbeQuery::ProcessListing);
    r.push(table);
    assert(r@ =~= probe_queries(runners@.len(), platform));
    r
}

/// The view of an optional string.
pub open spec fn opt_view(o: Option<String>) -> Option<Seq<char>> {
    match o {
        Some(s) => Some(s@),
        None => None,
    }
}

/// Whether a process listing shows a process whose command line holds `path`.
pub open spec fn process_running(listing: Option<Seq<char>>, path: Seq<char>) -> bool {
    match listing {
        Some(t) => exists|k: int|
            0 <= k < lines_of(t).len() && #[trigger] seq_contains(lines_of(t)[k], path),
        None => false,
    }
}

/// The state of a runner that the service manager does not decide: active
/// when one of its processes runs, else inactive when it is configured, else
/// not found.
pub open spec fn fallback_status(running: bool, configured: bool) -> RunnerStatus {
    if running {
        RunnerStatus::Active
    } else if configured {
        RunnerStatus::Inactive
    } else {
        RunnerStatus::NotFound
    }
}

/// The rows of a table: its lines, each split into fields.
pub open spec fn rows_of(t: Seq<char>) -> Seq<Seq<Seq<char>>> {
    lines_of(t).map_values(|l: Seq<char>| fields_of(l))
}

/// The systemd unit name of a runner service.
pub open spec fn unit_file_name(svc: Seq<char>) -> Seq<char> {
    svc + ".service"@
}

/// The active state that the first row of the unit table about `svc`
/// reports, when that row says the unit exists.
pub open spec fn unit_state(rows: Seq<Seq<Seq<char>>>, svc: Seq<char>) -> Option<Seq<char>>
    decreases rows.len(),
{
    if rows.len() == 0 {
        None
    } else if rows[0].len() >= 3 && rows[0][0] == unit_file_name(svc) {
        if rows[0][1] == "not-found"@ {
            None
        } else {
            Some(rows[0][2])
        }
    } else {
        unit_state(rows.drop_first(), svc)
    }
}

/// The status that a service-manager state names; other states decide
/// nothing.
pub open spec fn named_status(state: Seq<char>) -> Option<RunnerStatus> {
    if state == "active"@ {
        Some(RunnerStatus::Active)
    } else if state == "inactive"@ {
        Some(RunnerStatus::Inactive)
    } else if state == "failed"@ {
        Some(RunnerStatus::Failed)
    } else {
        None
    }
}

/// Whether a pid field names a running process.
pub open spec fn is_pid(f: Seq<char>) -> bool {
    f != "-"@ && parse_u32_spec(f) is Some
}

/// The pid field of the first agent-table row whose label is `svc`.
pub open spec fn agent_pid(rows: Seq<Seq<Seq<char>>>, svc: Seq<char>) -> Option<Seq<char>>
    decreases rows.len(),
{
    if rows.len() == 0 {
        None
    } else if rows[0].len() >= 3 && rows[0][2] == svc {
        Some(rows[0][0])
    } else {
        agent_pid(rows.drop_first(), svc)
    }
}

/// Whether an agent-table line is a running runner agent whose text holds
/// `repo`, the name of the directory that holds the runner's directory.
pub open spec fn partial_hit(line: Seq<char>, repo: Seq<char>) -> bool {
    &&& seq_contains(line, "actions.runner"@)
    &&& seq_contains(line, repo)
    &&& fields_of(line).len() > 0
    &&& is_pid(fields_of(line)[0])
}

/// Whether a line of agent table `t` is a running runner agent that names
/// the directory holding runner directory `path`.
pub open spec fn partial_match(t: Seq<char>, path: Seq<char>) -> bool {
    match parent_dir_name(path) {
        Some(d) => exists|k: int| 0 <= k < lines_of(t).len() && #[trigger] partial_hit(lines_of(t)[k], d),
        None => false,
    }
}

/// What the service manager says of a runner, when it decides.
pub open spec fn managed_status(p: Platform, table: Option<Seq<char>>, r: RunnerView) -> Option<
    RunnerStatus,
> {
    match table {
        None => None,
        Some(t) => match p {
            Platform::Linux => match unit_state(rows_of(t), r.service_name) {
                Some(state) => named_status(state),
                None => None,
            },
            Platform::MacOs => match agent_pid(rows_of(t), r.service_name) {
                Some(pid) => if is_pid(pid) {
                    Some(RunnerStatus::Active)
                } else {
                    Some(RunnerStatus::Inactive)
                },
                None => if partial_match(t, r.path) {
                    Some(RunnerStatus::Active)
                } else {
                    None
                },
            },
        },
    }
}

/// The status that a probe gives a runner: the service manager's answer
/// when it decides, else the process and configuration fallback.
pub open spec fn probed_status(
    p: Platform,
    listing: Option<Seq<char>>,
    table: Option<Seq<char>>,
    r: RunnerView,
    configured: bool,
) -> RunnerStatus {
    match managed_status(p, table, r) {
        Some(s) => s,
        None => fallback_status(process_running(listing, r.path), configured),
    }
}

/// Whether the marker list says runner `i` is configured.
pub open spec fn marker_at(markers: Seq<bool>, i: int) -> bool {
    0 <= i < markers.len() && markers[i]
}

/// `r` with its status replaced by `s`.
pub open spec fn with_status(r: RunnerView, s: RunnerStatus) -> RunnerView {
    RunnerView { status: s, ..r }
}


/// The views of a sequence of character vectors.
pub open spec fn char_views(v: Seq<Vec<char>>) -> Seq<Seq<char>> {
    v.map_values(|f: Vec<char>| f@)
}

/// The views of a sequence of table rows.
pub open spec fn row_views(v: Seq<Vec<Vec<char>>>) -> Seq<Seq<Seq<char>>> {
    v.map_values(|r: Vec<Vec<char>>| char_views(r@))
}

/// A table split once into lines and rows, so that each runner is matched
/// against it without parsing it again.
struct ParsedTable {
    lines: Vec<Vec<char>>,
    rows: Vec<Vec<Vec<char>>>,
}

impl ParsedTable {
    spec fn parses(&self, t: Seq<char>) -> bool {
        &&& char_views(self.lines@) == lines_of(t)
        &&& row_views(self.rows@) == rows_of(t)
    }
}

fn parse_table(text: &str) -> (r: ParsedTable)
    ensures
        r.parses(text@),
{
    let strings = split_lines(text);
    let ghost ls = lines_of(text@);
    let mut lines: Vec<Vec<char>> = Vec::new();
    let mut rows: Vec<Vec<Vec<char>>> = Vec::new();
    let mut i: usize = 0;
    while i < strings.len()
        invariant
            i <= strings@.len(),
            views(strings@) == ls,
            ls == lines_of(text@),
            char_views(lines@) == ls.subrange(0, i as int),
            row_views(rows@) == ls.subrange(0, i as int).map_values(|l: Seq<char>| fields_of(l)),
        decreases strings.len() - i,
    {
        let line = strings[i].as_str();
        assert(line@ == ls[i as int]);
        let cs = chars_of(line);
        let fs = split_fields(line);
        let ghost lb = lines@;
        let ghost rb = rows@;
        lines.push(cs);
        rows.push(fs);
        assert(char_views(lines@) =~= char_views(lb).push(cs@));
        assert(ls.subrange(0, i + 1) =~= ls.subrange(0, i as int).push(ls[i as int]));
        assert(row_views(rows@) =~= row_views(rb).push(char_views(fs@)));
        assert(ls.subrange(0, i + 1).map_values(|l: Seq<char>| fields_of(l)) =~= ls.subrange(
            0,
            i as int,
        ).map_values(|l: Seq<char>| fields_of(l)).push(fields_of(ls[i as int])));
        i = i + 1;
    }
    assert(ls.subrange(0, i as int) =~= ls);
    ParsedTable { lines, rows }
}

/// Whether one of `lines` holds `p`.
fn any_line_contains(lines: &Vec<Vec<char>>, p: &Vec<char>) -> (r: bool)
    ensures
        r == exists|k: int|
            0 <= k < char_views(lines@).len() && #[trigger] seq_contains(char_views(lines@)[k], p@),
{
    let mut k: usize = 0;
    while k < lines.len()
        invariant
            k <= lines@.len(),
            forall|j: int| 0 <= j < k ==> !seq_contains(#[trigger] char_views(lines@)[j], p@),
        decreases lines.len() - k,
    {
        if contains_chars(&lines[k], p) {
            assert(seq_contains(char_views(lines@)[k as int], p@));
            return true;
        }
        k = k + 1;
    }
    false
}

/// The views of an optional character vector.
pub open spec fn opt_chars(o: Option<Vec<char>>) -> Option<Seq<char>> {
    match o {
        Some(v) => Some(v@),
        None => None,
    }
}

fn find_unit_state(rows: &Vec<Vec<Vec<char>>>, unit: &Vec<char>, svc: &Vec<char>) -> (r: Option<
    Vec<char>,
>)
    requires
        unit@ == unit_file_name(svc@),
    ensures
        opt_chars(r) == unit_state(row_views(rows@), svc@),
{
    let not_found = chars_of("not-found");
    let mut k: usize = 0;
    assert(row_views(rows@).skip(0) =~= row_views(rows@));
    while k < rows.len()
        invariant
            k <= rows@.len(),
            unit@ == unit_file_name(svc@),
            not_found@ == "not-found"@,
            unit_state(row_views(rows@).skip(k as int), svc@) == unit_state(row_views(rows@), svc@),
        decreases rows.len() - k,
    {
        let ghost rest = row_views(rows@).skip(k as int);
        assert(rest.drop_first() =~= row_views(rows@).skip(k + 1));
        let row = &rows[k];
        assert(rest[0] == char_views(row@));
        if row.len() >= 3 && same_chars(&row[0], unit) {
            if same_chars(&row[1], &not_found) {
                return None;
            }
            return Some(row[2].clone());
        }
        k = k + 1;
    }
    None
}

fn find_agent_pid(rows: &Vec<Vec<Vec<char>>>, svc: &Vec<char>) -> (r: Option<Vec<char>>)
    ensures
        opt_chars(r) == agent_pid(row_views(rows@), svc@),
{
    let mut k: usize = 0;
    assert(row_views(rows@).skip(0) =~= row_views(rows@));
    while k < rows.len()
        invariant
            k <= rows@.len(),
            agent_pid(row_views(rows@).skip(k as int), svc@) == agent_pid(row_views(rows@), svc@),
        decreases rows.len() - k,
    {
        let ghost rest = row_views(rows@).skip(k as int);
        assert(rest.drop_first() =~= row_views(rows@).skip(k + 1));
        let row = &rows[k];
        assert(rest[0] == char_views(row@));
        if row.len() >= 3 && same_chars(&row[2], svc) {
            return Some(row[0].clone());
        }
        k = k + 1;
    }
    None
}

fn pid_field(f: &Vec<char>) -> (r: bool)
    ensures
        r == is_pid(f@),
{
    let dash = chars_of("-");
    !same_chars(f, &dash) && parse_u32_chars(f).is_some()
}

fn any_partial_hit(table: &ParsedTable, repo: &Vec<char>, marker: &Vec<char>) -> (r: bool)
    requires
        marker@ == "actions.runner"@,
        table.lines@.len() == table.rows@.len(),
        forall|k: int|
            0 <= k < table.lines@.len() ==> #[trigger] char_views(table.rows@[k]@) == fields_of(
                table.lines@[k]@,
            ),
    ensures
        r == exists|k: int|
            0 <= k < char_views(table.lines@).len() && #[trigger] partial_hit(
                char_views(table.lines@)[k],
                repo@,
            ),
{
    let mut k: usize = 0;
    while k < table.lines.len()
        invariant
            k <= table.lines@.len(),
            marker@ == "actions.runner"@,
            table.lines@.len() == table.rows@.len(),
            forall|k: int|
                0 <= k < table.lines@.len() ==> #[trigger] char_views(table.rows@[k]@) == fields_of(
                    table.lines@[k]@,
                ),
            forall|j: int| 0 <= j < k ==> !partial_hit(#[trigger] char_views(table.lines@)[j], repo@),
        decreases table.lines.len() - k,
    {
        let line = &table.lines[k];
        let row = &table.rows[k];
        assert(char_views(row@) == fields_of(line@));
        assert(char_views(table.lines@)[k as int] == line@);
        if contains_chars(line, marker) && contains_chars(line, repo) && row.len() > 0 && pid_field(&row[0]) {
            assert(partial_hit(char_views(table.lines@)[k as int], repo@));
            return true;
        }
        k = k + 1;
    }
    false
}


proof fn lemma_parsed_rows(table: &ParsedTable, t: Seq<char>)
    requires
        table.parses(t),
    ensures
        table.lines@.len() == table.rows@.len(),
        forall|k: int|
            0 <= k < table.lines@.len() ==> #[trigger] char_views(table.rows@[k]@) == fields_of(
                table.lines@[k]@,
            ),
{
    assert(char_views(table.lines@).len() == lines_of(t).len());
    assert(row_views(table.rows@).len() == rows_of(t).len());
    assert forall|k: int| 0 <= k < table.lines@.len() implies #[trigger] char_views(
        table.rows@[k]@,
    ) == fields_of(table.lines@[k]@) by {
        assert(row_views(table.rows@)[k] == rows_of(t)[k]);
        assert(char_views(table.lines@)[k] == lines_of(t)[k]);
    }
}

/// The status of one runner from the parsed answers of a probe.
fn resolve_status(
    platform: Platform,
    listing: &Option<Vec<Vec<char>>>,
    table: &Option<ParsedTable>,
    runner: &Runner,
    configured: bool,
    listing_text: Ghost<Option<Seq<char>>>,
    table_text: Ghost<Option<Seq<char>>>,
) -> (r: RunnerStatus)
    requires
        match listing_text@ {
            Some(t) => listing matches Some(ls) && char_views(ls@) == lines_of(t),
            None => listing is None,
        },
        match table_text@ {
            Some(t) => table matches Some(pt) && pt.parses(t),
            None => table is None,
        },
    ensures
        r == probed_status(platform, listing_text@, table_text@, runner@, configured),
{
    let svc = chars_of(runner.service_name.as_str());
    if let Some(pt) = table {
        let ghost t = table_text@->0;
        match platform {
            Platform::Linux => {
                let mut unit_name = runner.service_name.clone();
                crate::text::push_str(&mut unit_name, ".service");
                let unit = chars_of(unit_name.as_str());
                if let Some(state) = find_unit_state(&pt.rows, &unit, &svc) {
                    if same_chars(&state, &chars_of("active")) {
                        return RunnerStatus::Active;
                    } else if same_chars(&state, &chars_of("inactive")) {
                        return RunnerStatus::Inactive;
                    } else if same_chars(&state, &chars_of("failed")) {
                        return RunnerStatus::Failed;
                    }
                }
            },
            Platform::MacOs => {
                if let Some(pid) = find_agent_pid(&pt.rows, &svc) {
                    if pid_field(&pid) {
                        return RunnerStatus::Active;
                    } else {
                        return RunnerStatus::Inactive;
                    }
                }
                proof {
                    lemma_parsed_rows(pt, t);
                }
                if let Some(parent) = parent_name(runner.path.as_str()) {
                    if any_partial_hit(pt, &parent, &chars_of("actions.runner")) {
                        proof {
                            let k = choose|k: int|
                                0 <= k < char_views(pt.lines@).len() && #[trigger] partial_hit(
                                    char_views(pt.lines@)[k],
                                    parent@,
                                );
                            assert(partial_hit(lines_of(t)[k], parent@));
                            assert(parent_dir_name(runner@.path) == Some(parent@));
                            assert(exists|k: int|
                                0 <= k < lines_of(t).len() && #[trigger] partial_hit(lines_of(t)[k], parent@));
                            assert(agent_pid(rows_of(t), runner@.service_name) is None);
                            assert(table_text@ == Some(t));
                            let d = parent_dir_name(runner@.path)->0;
                            assert(d == parent@);
                            assert(0 <= k < lines_of(t).len());
                            assert(partial_hit(lines_of(t)[k], d));
                            assert(partial_match(t, runner@.path));
                        }
                        return RunnerStatus::Active;
                    }
                }
            },
        }
    }
    let running = match listing {
        Some(ls) => any_line_contains(ls, &chars_of(runner.path.as_str())),
        None => false,
    };
    if running {
        RunnerStatus::Active
    } else if configured {
        RunnerStatus::Inactive
    } else {
        RunnerStatus::NotFound
    }
}

/// Re-probes every runner from the answers to the queries of
/// [`probe_plan`]; only the statuses change.
pub fn refresh_runners(runners: &mut Vec<Runner>, platform: Platform, obs: &ProbeObservations)
    ensures
        final(runners)@.len() == old(runners)@.len(),
        forall|i: int|
            0 <= i < old(runners)@.len() ==> #[trigger] final(runners)@[i]@ == with_status(
                old(runners)@[i]@,
                probed_status(
                    platform,
                    opt_view(obs.process_listing),
                    opt_view(obs.service_table),
                    old(runners)@[i]@,
                    marker_at(obs.config_markers@, i),
                ),
            ),
{
    let listing: Option<Vec<Vec<char>>> = match &obs.process_listing {
        Some(text) => Some(parse_table(text.as_str()).lines),
        None => None,
    };
    let table: Option<ParsedTable> = match &obs.service_table {
        Some(text) => Some(parse_table(text.as_str())),
        None => None,
    };
    let ghost before = runners@;
    let mut i: usize = 0;
    while i < runners.len()
        invariant
            i <= runners@.len(),
            runners@.len() == before.len(),
            match opt_view(obs.process_listing) {
                Some(t) => listing matches Some(ls) && char_views(ls@) == lines_of(t),
                None => listing is None,
            },
            match opt_view(obs.service_table) {
                Some(t) => table matches Some(pt) && pt.parses(t),
                None => table is None,
            },
            forall|j: int| i <= j < before.len() ==> runners@[j] == before[j],
            forall|j: int|
                0 <= j < i ==> #[trigger] runners@[j]@ == with_status(
                    before[j]@,
                    probed_status(
                        platform,
                        opt_view(obs.process_listing),
                        opt_view(obs.service_table),
                        before[j]@,
                        marker_at(obs.config_markers@, j),
                    ),
                ),
        decreases runners.len() - i,
    {
        let configured = i < obs.config_markers.len() && obs.config_markers[i];
        let status = resolve_status(
            platform,
            &listing,
            &table,
            &runners[i],
            configured,
            Ghost(opt_view(obs.process_listing)),
            Ghost(opt_view(obs.service_table)),
        );
        let mut updated = runners[i].snapshot();
        updated.status = status;
        runners.set(i, updated);
        i = i + 1;
    }
}

} // verus!
