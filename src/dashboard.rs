//! The presentation state: the last published runner list, the selection,
//! the view mode and the status line. It only reads snapshots and hands out
//! requests; it never waits on a probe or a control action.
use vstd::prelude::*;
use crate::runner::{runner_views, Runner, RunnerStatus, RunnerView};
use crate::text::{chars_of, push_char, push_str};
use crate::worker::{WorkerCommand, WorkerResponse};

verus! {

/// What the main area shows.
#[derive(Clone, Copy, Debug, PartialEq, Eq, Structural)]
pub enum AppMode {
    Normal,
    Logs,
    Help,
}

/// The presentation state.
pub struct App {
    pub runners: Vec<Runner>,
    pub selected: usize,
    pub should_quit: bool,
    pub mode: AppMode,
    pub status_message: Option<String>,
    pub logs: Vec<String>,
    pub log_scroll: usize,
}

/// The view of an optional string.
pub open spec fn message_view(m: Option<String>) -> Option<Seq<char>> {
    match m {
        Some(s) => Some(s@),
        None => None,
    }
}

/// The number of runners in `v` with status `s`.
pub open spec fn count_status(v: Seq<RunnerView>, s: RunnerStatus) -> nat
    decreases v.len(),
{
    if v.len() == 0 {
        0
    } else {
        count_status(v.drop_last(), s) + if v.last().status == s { 1nat } else { 0nat }
    }
}

/// `a` with its first character upper-cased when it is an ASCII lower-case
/// letter.
pub open spec fn capitalized(a: Seq<char>) -> Seq<char> {
    if a.len() > 0 && 'a' <= a[0] && a[0] <= 'z' {
        a.update(0, ((a[0] as u32) - 32) as char)
    } else {
        a
    }
}

/// The status line shown once a control request has been handed out.
pub open spec fn pending_message(action: Seq<char>) -> Seq<char> {
    capitalized(action) + "ing runner..."@
}

/// The selection after a new list of `n` runners arrives: kept where it
/// still points into the list, else moved to the last runner.
pub open spec fn kept_selection(selected: nat, n: nat) -> nat {
    if selected >= n && n > 0 {
        (n - 1) as nat
    } else {
        selected
    }
}

/// The state after one publication.
pub open spec fn applied(
    runners: Seq<RunnerView>,
    selected: nat,
    message: Option<Seq<char>>,
    r: crate::worker::ResponseView,
) -> (Seq<RunnerView>, nat, Option<Seq<char>>) {
    match r {
        crate::worker::ResponseView::RunnersUpdated(v) => (v, kept_selection(selected, v.len()), message),
        crate::worker::ResponseView::ActionComplete(m) => (runners, selected, Some(m)),
    }
}

/// The state after the publications `rs`, in order.
pub open spec fn applied_all(
    runners: Seq<RunnerView>,
    selected: nat,
    message: Option<Seq<char>>,
    rs: Seq<crate::worker::ResponseView>,
) -> (Seq<RunnerView>, nat, Option<Seq<char>>)
    decreases rs.len(),
{
    if rs.len() == 0 {
        (runners, selected, message)
    } else {
        let (r0, s0, m0) = applied_all(runners, selected, message, rs.drop_last());
        applied(r0, s0, m0, rs.last())
    }
}

fn text(s: &str) -> (r: String)
    ensures
        r@ == s@,
{
    String::from_str(s)
}

impl App {
    /// The presentation state for the first discovered list.
    pub fn new(runners: Vec<Runner>) -> (r: App)
        ensures
            r.runners@ == runners@,
            r.selected == 0,
            !r.should_quit,
            r.mode == AppMode::Normal,
            r.status_message is None,
            r.logs@.len() == 0,
            r.log_scroll == 0,
    {
        App {
            runners,
            selected: 0,
            should_quit: false,
            mode: AppMode::Normal,
            status_message: None,
            logs: Vec::new(),
            log_scroll: 0,
        }
    }

    /// Notes whether a refresh request reached the worker.
    pub fn refresh(&mut self, worker_available: bool)
        ensures
            final(self).runners@ == old(self).runners@,
            final(self).selected == old(self).selected,
            final(self).mode == old(self).mode,
            final(self).logs@ == old(self).logs@,
            final(self).log_scroll == old(self).log_scroll,
            final(self).should_quit == old(self).should_quit,
            message_view(final(self).status_message) == if worker_available {
                message_view(old(self).status_message)
            } else {
                Some("Warning: Worker thread unavailable"@)
            },
    {
        if !worker_available {
            self.status_message = Some(text("Warning: Worker thread unavailable"));
        }
    }

    /// Applies the publications received since the last poll, in order;
    /// `disconnected` tells that the worker is gone, which leaves a lasting
    /// warning.
    pub fn poll_worker_updates(&mut self, responses: Vec<WorkerResponse>, disconnected: bool)
        ensures
            ({
                let (rs, sel, msg) = applied_all(
                    runner_views(old(self).runners@),
                    old(self).selected as nat,
                    message_view(old(self).status_message),
                    crate::worker::response_views(responses@),
                );
                &&& runner_views(final(self).runners@) == rs
                &&& final(self).selected == sel
                &&& message_view(final(self).status_message) == if disconnected {
                    Some("ERROR: Background worker crashed. Data may be stale."@)
                } else {
                    msg
                }
            }),
            final(self).mode == old(self).mode,
            final(self).logs@ == old(self).logs@,
            final(self).log_scroll == old(self).log_scroll,
            final(self).should_quit == old(self).should_quit,
    {
        let ghost rv = crate::worker::response_views(responses@);
        let ghost r0 = runner_views(self.runners@);
        let ghost s0 = self.selected as nat;
        let ghost m0 = message_view(self.status_message);
        let ghost orig = responses@;
        let mut responses = responses;
        let mut k: usize = 0;
        let n = responses.len();
        assert(rv.subrange(0, 0) =~= Seq::<crate::worker::ResponseView>::empty());
        while responses.len() > 0
            invariant
                n == rv.len(),
                rv == crate::worker::response_views(orig),
                k <= n,
                responses@ == orig.subrange(k as int, n as int),
                ({
                    let (rs, sel, msg) = applied_all(r0, s0, m0, rv.subrange(0, k as int));
                    &&& runner_views(self.runners@) == rs
                    &&& self.selected == sel
                    &&& message_view(self.status_message) == msg
                }),
                self.mode == old(self).mode,
                self.logs@ == old(self).logs@,
                self.log_scroll == old(self).log_scroll,
                self.should_quit == old(self).should_quit,
            decreases responses.len(),
        {
            let r = responses.remove(0);
            assert(r@ == rv[k as int]);
            assert(rv.subrange(0, k + 1).drop_last() =~= rv.subrange(0, k as int));
            assert(responses@ =~= orig.subrange(k + 1, n as int));
            match r {
                WorkerResponse::RunnersUpdated(updated) => {
                    self.runners = updated;
                    if self.selected >= self.runners.len() && self.runners.len() > 0 {
                        self.selected = self.runners.len() - 1;
                    }
                },
                WorkerResponse::ActionComplete { message } => {
                    self.status_message = Some(message);
                },
            }
            k = k + 1;
        }
        assert(rv.subrange(0, k as int) =~= rv);
        if disconnected {
            self.status_message = Some(text("ERROR: Background worker crashed. Data may be stale."));
        }
    }

    /// Number of log lines asked for.
    pub const LOG_LINES: usize = 100;

    /// Takes the freshly read logs of the selected runner, if they could be
    /// read; without a selected runner nothing changes.
    pub fn refresh_logs(&mut self, fetched: Option<Vec<String>>)
        ensures
            final(self).logs@ == if old(self).selected < old(self).runners@.len() && fetched is Some {
                fetched->0@
            } else {
                old(self).logs@
            },
            final(self).runners@ == old(self).runners@,
            final(self).selected == old(self).selected,
            final(self).mode == old(self).mode,
            final(self).log_scroll == old(self).log_scroll,
            final(self).status_message == old(self).status_message,
            final(self).should_quit == old(self).should_quit,
    {
        if self.selected < self.runners.len() {
            if let Some(logs) = fetched {
                self.logs = logs;
            }
        }
    }

    /// The selected runner, if the selection points into the list.
    pub fn selected_runner(&self) -> (r: Option<&Runner>)
        ensures
            match r {
                Some(x) => self.selected < self.runners@.len() && *x == self.runners@[self.selected as int],
                None => self.selected >= self.runners@.len(),
            },
    {
        if self.selected < self.runners.len() {
            Some(&self.runners[self.selected])
        } else {
            None
        }
    }

    /// Moves the selection down, wrapping to the first runner.
    pub fn select_next(&mut self)
        ensures
            final(self).selected == if old(self).runners@.len() > 0 {
                ((old(self).selected + 1) % (old(self).runners@.len() as int)) as usize
            } else {
                old(self).selected
            },
            final(self).runners@ == old(self).runners@,
            final(self).mode == old(self).mode,
            final(self).logs@ == old(self).logs@,
            final(self).log_scroll == old(self).log_scroll,
            final(self).status_message == old(self).status_message,
            final(self).should_quit == old(self).should_quit,
    {
        if self.runners.len() > 0 {
            let n = self.runners.len();
            let m = self.selected % n;
            proof {
                let (x, k) = (self.selected as int, n as int);
                vstd::arithmetic::div_mod::lemma_mod_bound(x, k);
                vstd::arithmetic::div_mod::lemma_add_mod_noop(x, 1, k);
                vstd::arithmetic::div_mod::lemma_mod_self_0(k);
                if k > 1 {
                    vstd::arithmetic::div_mod::lemma_small_mod(1, k as nat);
                }
                if m + 1 < k {
                    vstd::arithmetic::div_mod::lemma_small_mod((m + 1) as nat, k as nat);
                }
            }
            self.selected = if m + 1 == n { 0 } else { m + 1 };
        }
    }

    /// Moves the selection up, wrapping to the last runner.
    pub fn select_previous(&mut self)
        ensures
            final(self).selected == if old(self).runners@.len() > 0 {
                if old(self).selected > 0 {
                    (old(self).selected - 1) as usize
                } else {
                    (old(self).runners@.len() - 1) as usize
                }
            } else {
                old(self).selected
            },
            final(self).runners@ == old(self).runners@,
            final(self).mode == old(self).mode,
            final(self).logs@ == old(self).logs@,
            final(self).log_scroll == old(self).log_scroll,
            final(self).status_message == old(self).status_message,
            final(self).should_quit == old(self).should_quit,
    {
        if self.runners.len() > 0 {
            self.selected = if self.selected > 0 {
                self.selected - 1
            } else {
                self.runners.len() - 1
            };
        }
    }

    /// Scrolls the log view up one line, stopping at the top.
    pub fn scroll_logs_up(&mut self)
        ensures
            final(self).log_scroll == if old(self).log_scroll > 0 {
                (old(self).log_scroll - 1) as usize
            } else {
                0
            },
            final(self).runners@ == old(self).runners@,
            final(self).selected == old(self).selected,
            final(self).mode == old(self).mode,
            final(self).logs@ == old(self).logs@,
            final(self).status_message == old(self).status_message,
            final(self).should_quit == old(self).should_quit,
    {
        if self.log_scroll > 0 {
            self.log_scroll = self.log_scroll - 1;
        }
    }

    /// Scrolls the log view down one line, stopping at the last line.
    pub fn scroll_logs_down(&mut self)
        ensures
            final(self).log_scroll == if old(self).log_scroll + 1 < old(self).logs@.len() {
                (old(self).log_scroll + 1) as usize
            } else {
                old(self).log_scroll
            },
            final(self).runners@ == old(self).runners@,
            final(self).selected == old(self).selected,
            final(self).mode == old(self).mode,
            final(self).logs@ == old(self).logs@,
            final(self).status_message == old(self).status_message,
            final(self).should_quit == old(self).should_quit,
    {
        if self.logs.len() > 0 && self.log_scroll < self.logs.len() - 1 {
            self.log_scroll = self.log_scroll + 1;
        }
    }

    fn control_command(&self, action: &str) -> (r: WorkerCommand)
        ensures
            r matches WorkerCommand::ControlRunner { runner_index, action: a } && runner_index
                == self.selected && a@ == action@,
    {
        WorkerCommand::ControlRunner { runner_index: self.selected, action: text(action) }
    }

    /// The request to start the selected runner.
    pub fn start_selected(&self) -> (r: WorkerCommand)
        ensures
            r matches WorkerCommand::ControlRunner { runner_index, action } && runner_index
                == self.selected && action@ == "start"@,
    {
        self.control_command("start")
    }

    /// The request to stop the selected runner.
    pub fn stop_selected(&self) -> (r: WorkerCommand)
        ensures
            r matches WorkerCommand::ControlRunner { runner_index, action } && runner_index
                == self.selected && action@ == "stop"@,
    {
        self.control_command("stop")
    }

    /// The request to restart the selected runner.
    pub fn restart_selected(&self) -> (r: WorkerCommand)
        ensures
            r matches WorkerCommand::ControlRunner { runner_index, action } && runner_index
                == self.selected && action@ == "restart"@,
    {
        self.control_command("restart")
    }

    /// Notes whether the control request `action` reached the worker: the
    /// status line then says that the action is under way, or that the
    /// worker is unavailable.
    pub fn control_selected_runner(&mut self, action: &str, sent: bool)
        ensures
            message_view(final(self).status_message) == Some(
                if sent {
                    pending_message(action@)
                } else {
                    "Error: Worker thread unavailable"@
                },
            ),
            final(self).runners@ == old(self).runners@,
            final(self).selected == old(self).selected,
            final(self).mode == old(self).mode,
            final(self).logs@ == old(self).logs@,
            final(self).log_scroll == old(self).log_scroll,
            final(self).should_quit == old(self).should_quit,
    {
        if !sent {
            self.status_message = Some(text("Error: Worker thread unavailable"));
            return;
        }
        let cs = chars_of(action);
        let mut m = String::new();
        let mut i: usize = 0;
        while i < cs.len()
            invariant
                i <= cs@.len(),
                cs@ == action@,
                m@ == capitalized(action@).subrange(0, i as int),
            decreases cs.len() - i,
        {
            let c = cs[i];
            let d = if i == 0 && 'a' <= c && c <= 'z' {
                ((c as u8) - 32) as char
            } else {
                c
            };
            assert(d == capitalized(action@)[i as int]);
            push_char(&mut m, d);
            assert(m@ =~= capitalized(action@).subrange(0, i + 1));
            i = i + 1;
        }
        assert(m@ =~= capitalized(action@));
        push_str(&mut m, "ing runner...");
        self.status_message = Some(m);
    }

    /// Switches the log view on or off. Switching it on takes the freshly
    /// read logs of the selected runner and scrolls to their end; switching
    /// it off clears them.
    pub fn toggle_logs(&mut self, fetched: Option<Vec<String>>)
        ensures
            old(self).mode == AppMode::Logs ==> final(self).mode == AppMode::Normal
                && final(self).logs@.len() == 0 && final(self).log_scroll == 0,
            old(self).mode != AppMode::Logs ==> {
                &&& final(self).mode == AppMode::Logs
                &&& final(self).logs@ == if old(self).selected < old(self).runners@.len()
                    && fetched is Some {
                    fetched->0@
                } else {
                    old(self).logs@
                }
                &&& final(self).log_scroll == if final(self).logs@.len() > 0 {
                    (final(self).logs@.len() - 1) as usize
                } else {
                    0
                }
            },
            final(self).runners@ == old(self).runners@,
            final(self).selected == old(self).selected,
            final(self).status_message == old(self).status_message,
            final(self).should_quit == old(self).should_quit,
    {
        if self.mode == AppMode::Logs {
            self.mode = AppMode::Normal;
            self.logs = Vec::new();
            self.log_scroll = 0;
        } else {
            self.mode = AppMode::Logs;
            self.refresh_logs(fetched);
            self.log_scroll = if self.logs.len() > 0 { self.logs.len() - 1 } else { 0 };
        }
    }

    /// Switches the help view on, or back to the runner list.
    pub fn toggle_help(&mut self)
        ensures
            final(self).mode == if old(self).mode == AppMode::Help {
                AppMode::Normal
            } else {
                AppMode::Help
            },
            final(self).runners@ == old(self).runners@,
            final(self).selected == old(self).selected,
            final(self).logs@ == old(self).logs@,
            final(self).log_scroll == old(self).log_scroll,
            final(self).status_message == old(self).status_message,
            final(self).should_quit == old(self).should_quit,
    {
        self.mode = if self.mode == AppMode::Help {
            AppMode::Normal
        } else {
            AppMode::Help
        };
    }

    /// The numbers of active, failed and all runners.
    pub fn counts(&self) -> (r: (usize, usize, usize))
        ensures
            r.0 == count_status(runner_views(self.runners@), RunnerStatus::Active),
            r.1 == count_status(runner_views(self.runners@), RunnerStatus::Failed),
            r.2 == self.runners@.len(),
    {
        let mut active: usize = 0;
        let mut failed: usize = 0;
        let mut i: usize = 0;
        while i < self.runners.len()
            invariant
                i <= self.runners@.len(),
                active == count_status(runner_views(self.runners@.subrange(0, i as int)), RunnerStatus::Active),
                failed == count_status(runner_views(self.runners@.subrange(0, i as int)), RunnerStatus::Failed),
                active <= i,
                failed <= i,
            decreases self.runners.len() - i,
        {
            assert(runner_views(self.runners@.subrange(0, i + 1)).drop_last() =~= runner_views(
                self.runners@.subrange(0, i as int),
            ));
            match self.runners[i].status {
                RunnerStatus::Active => {
                    active = active + 1;
                },
                RunnerStatus::Failed => {
                    failed = failed + 1;
                },
                _ => {},
            }
            i = i + 1;
        }
        assert(self.runners@.subrange(0, i as int) =~= self.runners@);
        (active, failed, self.runners.len())
    }
}

} // verus!
