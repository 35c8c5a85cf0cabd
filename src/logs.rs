//! Log retrieval: which source to read for a runner, and which lines of it
//! to show.
use vstd::prelude::*;
use crate::control::{CommandLine, CommandView};
use crate::runner::Runner;
use crate::text::{decimal, lines_of, push_decimal, split_lines, views};

verus! {

/// What was found where a runner's logs are kept.
#[derive(Clone, Debug)]
pub enum LogSource {
    /// The output of the journal query of [`journal_command`].
    Journal(String),
    /// The runner directory has no diagnostics directory.
    NoDiagnostics,
    /// The contents of the most recently modified worker log and runner log
    /// in the diagnostics directory, where there is one.
    Diagnostics { worker_log: Option<String>, runner_log: Option<String> },
}

/// The journal query for the last `lines` lines of a runner's unit.
pub open spec fn journal_query(service_name: Seq<char>, lines: nat) -> CommandView {
    CommandView {
        program: "journalctl"@,
        args: seq![
            "-u"@,
            service_name,
            "-n"@,
            decimal(lines),
            "--no-pager"@,
            "-o"@,
            "short-iso"@,
        ],
        dir: None,
    }
}

/// Builds the journal query for the last `lines` lines of `runner`'s unit.
pub fn journal_command(runner: &Runner, lines: u32) -> (r: CommandLine)
    ensures
        r@ == journal_query(runner.service_name@, lines as nat),
{
    let mut count = String::new();
    push_decimal(&mut count, lines as u64);
    let mut args: Vec<String> = Vec::new();
    args.push(String::from_str("-u"));
    args.push(runner.service_name.clone());
    args.push(String::from_str("-n"));
    args.push(count);
    args.push(String::from_str("--no-pager"));
    args.push(String::from_str("-o"));
    args.push(String::from_str("short-iso"));
    let r = CommandLine { program: String::from_str("journalctl"), args, dir: None };
    assert(r@.args =~= journal_query(runner.service_name@, lines as nat).args);
    r
}

/// The last `n` lines of `t`, or all of them when there are fewer.
pub open spec fn tail_lines(t: Seq<char>, n: nat) -> Seq<Seq<char>> {
    let all = lines_of(t);
    if all.len() <= n {
        all
    } else {
        all.subrange(all.len() - n, all.len() as int)
    }
}

/// The last `n` lines of `text`.
pub fn last_lines(text: &str, n: usize) -> (r: Vec<String>)
    ensures
        views(r@) == tail_lines(text@, n as nat),
{
    let all = split_lines(text);
    let start: usize = if all.len() > n { all.len() - n } else { 0 };
    let mut r: Vec<String> = Vec::new();
    let mut i: usize = start;
    while i < all.len()
        invariant
            start <= i <= all@.len(),
            views(r@) == views(all@).subrange(start as int, i as int),
        decreases all.len() - i,
    {
        let ghost before = r@;
        r.push(all[i].clone());
        assert(views(r@) =~= views(before).push(all@[i as int]@));
        assert(views(all@).subrange(start as int, i + 1) =~= views(all@).subrange(start as int, i as int).push(all@[i as int]@));
        i = i + 1;
    }
    assert(views(all@).subrange(0, all@.len() as int) =~= views(all@));
    r
}

/// The lines shown for a runner's logs.
pub open spec fn shown_logs(source: LogSource, n: nat) -> Seq<Seq<char>> {
    match source {
        LogSource::Journal(out) => lines_of(out@),
        LogSource::NoDiagnostics => seq!["No logs found (no _diag directory)"@],
        LogSource::Diagnostics { worker_log, runner_log } => match worker_log {
            Some(w) => tail_lines(w@, n),
            None => match runner_log {
                Some(l) => tail_lines(l@, n),
                None => seq!["No log files found in _diag"@],
            },
        },
    }
}

fn single(s: &str) -> (r: Vec<String>)
    ensures
        views(r@) == seq![s@],
{
    let mut r: Vec<String> = Vec::new();
    r.push(String::from_str(s));
    assert(views(r@) =~= seq![s@]);
    r
}

/// The recent log lines of a runner, from what was found where its logs
/// are kept: all lines of the journal query (which asks for `lines` lines),
/// else the last `lines` lines of the newest worker log, else of the newest
/// runner log, else a line that says why there are none.
pub fn get_runner_logs(source: &LogSource, lines: usize) -> (r: Vec<String>)
    ensures
        views(r@) == shown_logs(*source, lines as nat),
{
    match source {
        LogSource::Journal(out) => split_lines(out.as_str()),
        LogSource::NoDiagnostics => single("No logs found (no _diag directory)"),
        LogSource::Diagnostics { worker_log, runner_log } => match worker_log {
            Some(w) => last_lines(w.as_str(), lines),
            None => match runner_log {
                Some(l) => last_lines(l.as_str(), lines),
                None => single("No log files found in _diag"),
            },
        },
    }
}

} // verus!
