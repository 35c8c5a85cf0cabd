//! The action controller: validation of control requests, and the tiered
//! start / stop / restart procedure as a state machine whose external steps
//! the caller performs.
use vstd::prelude::*;
use crate::probe::{opt_view, Platform};
use crate::runner::{display_name_of, unit_prefix, Runner, RunnerView};
use crate::text::{
    chars_of, child_path, contains_chars, decimal, join_path, push_char, push_decimal, push_str,
    seq_contains, views,
};

verus! {

/// A control verb.
#[derive(Clone, Copy, Debug, PartialEq, Eq, Structural)]
pub enum ControlAction {
    Start,
    Stop,
    Restart,
}

/// The literal of a control verb.
pub open spec fn action_text(a: ControlAction) -> Seq<char> {
    match a {
        ControlAction::Start => "start"@,
        ControlAction::Stop => "stop"@,
        ControlAction::Restart => "restart"@,
    }
}

/// The verb that a literal names: exactly `start`, `stop` or `restart`.
pub open spec fn action_of(s: Seq<char>) -> Option<ControlAction> {
    if s == "start"@ {
        Some(ControlAction::Start)
    } else if s == "stop"@ {
        Some(ControlAction::Stop)
    } else if s == "restart"@ {
        Some(ControlAction::Restart)
    } else {
        None
    }
}

impl ControlAction {
    /// The verb's literal.
    pub fn as_str(&self) -> (r: &'static str)
        ensures
            r@ == action_text(*self),
    {
        match self {
            ControlAction::Start => "start",
            ControlAction::Stop => "stop",
            ControlAction::Restart => "restart",
        }
    }

    /// The verb that `s` names, if any.
    pub fn parse(s: &str) -> (r: Option<ControlAction>)
        ensures
            r == action_of(s@),
    {
        let cs = chars_of(s);
        if crate::text::same_chars(&cs, &chars_of("start")) {
            Some(ControlAction::Start)
        } else if crate::text::same_chars(&cs, &chars_of("stop")) {
            Some(ControlAction::Stop)
        } else if crate::text::same_chars(&cs, &chars_of("restart")) {
            Some(ControlAction::Restart)
        } else {
            None
        }
    }
}

/// Why a control action failed.
#[derive(Clone, Debug, PartialEq, Eq)]
pub enum ControlError {
    /// The request was refused before anything was run.
    Validation(String),
    /// A command ran and exited with a failure; the text holds its
    /// diagnostic output.
    CommandFailed(String),
    /// A command could not be launched at all.
    SpawnFailed(String),
    /// The runner's processes did not exit in time during a restart.
    Timeout(String),
}

/// The kind and text of a control error, as plain values.
pub ghost enum ErrorView {
    Validation(Seq<char>),
    CommandFailed(Seq<char>),
    SpawnFailed(Seq<char>),
    Timeout(Seq<char>),
}

impl View for ControlError {
    type V = ErrorView;

    open spec fn view(&self) -> ErrorView {
        match self {
            ControlError::Validation(m) => ErrorView::Validation(m@),
            ControlError::CommandFailed(m) => ErrorView::CommandFailed(m@),
            ControlError::SpawnFailed(m) => ErrorView::SpawnFailed(m@),
            ControlError::Timeout(m) => ErrorView::Timeout(m@),
        }
    }
}

/// The text of a control error.
pub open spec fn error_text(e: ErrorView) -> Seq<char> {
    match e {
        ErrorView::Validation(m) => m,
        ErrorView::CommandFailed(m) => m,
        ErrorView::SpawnFailed(m) => m,
        ErrorView::Timeout(m) => m,
    }
}

impl ControlError {
    /// The error's text.
    pub fn message(&self) -> (r: String)
        ensures
            r@ == error_text(self@),
    {
        match self {
            ControlError::Validation(m) => m.clone(),
            ControlError::CommandFailed(m) => m.clone(),
            ControlError::SpawnFailed(m) => m.clone(),
            ControlError::Timeout(m) => m.clone(),
        }
    }
}

/// Whether `c` may stand in a service name: an ASCII letter or digit, `.`,
/// `-` or `_`.
pub open spec fn is_name_char(c: char) -> bool {
    ('a' <= c && c <= 'z') || ('A' <= c && c <= 'Z') || ('0' <= c && c <= '9') || c == '.' || c
        == '-' || c == '_'
}

/// Whether every character of `s` may stand in a service name.
pub open spec fn well_formed_name(s: Seq<char>) -> bool {
    forall|i: int| 0 <= i < s.len() ==> #[trigger] is_name_char(s[i])
}

/// Whether `s` starts with the runner unit namespace.
pub open spec fn has_unit_prefix(s: Seq<char>) -> bool {
    s.len() >= unit_prefix().len() && s.subrange(0, unit_prefix().len() as int) == unit_prefix()
}

/// The shell metacharacters that a path handed to a process-matching
/// pattern must not hold, in the order in which they are checked.
pub open spec fn shell_metachars() -> Seq<char> {
    seq![
        ';', '&', '|', '`', '$', '\n', '\r', '\'', '"', '(', ')', '{', '}', '<', '>', '*', '?',
        '[', ']', '!', '#',
    ]
}

/// The first metacharacter of `list` that `p` holds.
pub open spec fn first_metachar(list: Seq<char>, p: Seq<char>) -> Option<char>
    decreases list.len(),
{
    if list.len() == 0 {
        None
    } else if p.contains(list[0]) {
        Some(list[0])
    } else {
        first_metachar(list.drop_first(), p)
    }
}

/// Whether `p` holds no shell metacharacter.
pub open spec fn safe_path(p: Seq<char>) -> bool {
    forall|i: int| 0 <= i < p.len() ==> !shell_metachars().contains(#[trigger] p[i])
}

/// The message that refuses a path holding metacharacter `c`.
pub open spec fn unsafe_path_message(c: char) -> Seq<char> {
    "Invalid path: contains shell metacharacter '"@.push(c) + "'"@
}

proof fn lemma_first_metachar(list: Seq<char>, p: Seq<char>)
    ensures
        first_metachar(list, p) is None <==> forall|i: int|
            0 <= i < p.len() ==> !list.contains(#[trigger] p[i]),
    decreases list.len(),
{
    if list.len() > 0 {
        lemma_first_metachar(list.drop_first(), p);
        if p.contains(list[0]) {
            let i = choose|i: int| 0 <= i < p.len() && p[i] == list[0];
            assert(list.contains(p[i]));
        } else {
            assert forall|i: int| 0 <= i < p.len() && list.contains(#[trigger] p[i]) implies list.drop_first().contains(p[i]) by {
                let j = choose|j: int| 0 <= j < list.len() && list[j] == p[i];
                assert(j != 0);
                assert(list.drop_first()[j - 1] == p[i]);
            }
            assert forall|i: int| 0 <= i < p.len() && list.drop_first().contains(#[trigger] p[i]) implies list.contains(p[i]) by {
                let j = choose|j: int| 0 <= j < list.drop_first().len() && list.drop_first()[j] == p[i];
                assert(list[j + 1] == p[i]);
            }
        }
    }
}

fn chars_contain(cs: &Vec<char>, c: char) -> (r: bool)
    ensures
        r == cs@.contains(c),
{
    let mut i: usize = 0;
    while i < cs.len()
        invariant
            i <= cs@.len(),
            forall|j: int| 0 <= j < i ==> cs@[j] != c,
        decreases cs.len() - i,
    {
        if cs[i] == c {
            return true;
        }
        i = i + 1;
    }
    false
}

/// Refuses a path that holds a shell metacharacter, naming the first one
/// in the order of [`shell_metachars`].
pub fn validate_path(path: &str) -> (r: Result<(), ControlError>)
    ensures
        r is Ok <==> safe_path(path@),
        r matches Err(e) ==> first_metachar(shell_metachars(), path@) matches Some(c) && e@
            == ErrorView::Validation(unsafe_path_message(c)),
{
    let cs = chars_of(path);
    let list: Vec<char> = vec![
        ';', '&', '|', '`', '$', '\n', '\r', '\'', '"', '(', ')', '{', '}', '<', '>', '*', '?',
        '[', ']', '!', '#',
    ];
    assert(list@ =~= shell_metachars());
    proof {
        lemma_first_metachar(shell_metachars(), path@);
    }
    let mut k: usize = 0;
    assert(list@.skip(0) =~= list@);
    while k < list.len()
        invariant
            k <= list@.len(),
            cs@ == path@,
            list@ == shell_metachars(),
            first_metachar(list@.skip(k as int), path@) == first_metachar(shell_metachars(), path@),
        decreases list.len() - k,
    {
        assert(list@.skip(k as int).drop_first() =~= list@.skip(k + 1));
        let c = list[k];
        if chars_contain(&cs, c) {
            let mut m = String::new();
            push_str(&mut m, "Invalid path: contains shell metacharacter '");
            push_char(&mut m, c);
            push_str(&mut m, "'");
            return Err(ControlError::Validation(m));
        }
        k = k + 1;
    }
    assert(list@.skip(k as int) =~= Seq::<char>::empty());
    Ok(())
}


/// A command to run: program, arguments and working directory.
#[derive(Clone, Debug)]
pub struct CommandLine {
    pub program: String,
    pub args: Vec<String>,
    pub dir: Option<String>,
}

/// A command line as plain values.
pub ghost struct CommandView {
    pub program: Seq<char>,
    pub args: Seq<Seq<char>>,
    pub dir: Option<Seq<char>>,
}

impl View for CommandLine {
    type V = CommandView;

    open spec fn view(&self) -> CommandView {
        CommandView { program: self.program@, args: views(self.args@), dir: opt_view(self.dir) }
    }
}

/// One external step that the controller asks its caller to perform.
#[derive(Clone, Debug)]
pub enum ControlRequest {
    /// Run the command to completion; answer `Finished`, or `LaunchFailed`
    /// when it cannot be started.
    Run(CommandLine),
    /// Start the command in the background without waiting for it; answer
    /// `Launched`, or `LaunchFailed`.
    Spawn(CommandLine),
    /// Answer `Exists` with whether the file is there.
    FileExists(String),
    /// Wait this many milliseconds, then answer `Waited`.
    Sleep(u64),
}

/// A request as plain values.
pub ghost enum RequestView {
    Run(CommandView),
    Spawn(CommandView),
    FileExists(Seq<char>),
    Sleep(u64),
}

impl View for ControlRequest {
    type V = RequestView;

    open spec fn view(&self) -> RequestView {
        match self {
            ControlRequest::Run(c) => RequestView::Run(c@),
            ControlRequest::Spawn(c) => RequestView::Spawn(c@),
            ControlRequest::FileExists(p) => RequestView::FileExists(p@),
            ControlRequest::Sleep(ms) => RequestView::Sleep(*ms),
        }
    }
}

/// The caller's answer to a request.
#[derive(Clone, Debug)]
pub enum ControlEvent {
    /// A command ran to its end.
    Finished { success: bool, stdout: String, stderr: String },
    /// A command could not be started; the text says why.
    LaunchFailed(String),
    /// A background command was started.
    Launched,
    /// Whether the asked-for file exists.
    Exists(bool),
    /// The wait is over.
    Waited,
}

/// An answer as plain values.
pub ghost enum EventView {
    Finished { success: bool, stdout: Seq<char>, stderr: Seq<char> },
    LaunchFailed(Seq<char>),
    Launched,
    Exists(bool),
    Waited,
}

impl View for ControlEvent {
    type V = EventView;

    open spec fn view(&self) -> EventView {
        match self {
            ControlEvent::Finished { success, stdout, stderr } => EventView::Finished {
                success: *success,
                stdout: stdout@,
                stderr: stderr@,
            },
            ControlEvent::LaunchFailed(m) => EventView::LaunchFailed(m@),
            ControlEvent::Launched => EventView::Launched,
            ControlEvent::Exists(b) => EventView::Exists(*b),
            ControlEvent::Waited => EventView::Waited,
        }
    }
}

/// What the controller does next: ask for one more external step, or end
/// with the action's outcome.
#[derive(Debug)]
pub enum ControlStep {
    Request(ControlRequest),
    Done(Result<String, ControlError>),
}

/// A step as plain values.
pub ghost enum StepView {
    Request(RequestView),
    Done(Result<Seq<char>, ErrorView>),
}

impl View for ControlStep {
    type V = StepView;

    open spec fn view(&self) -> StepView {
        match self {
            ControlStep::Request(r) => StepView::Request(r@),
            ControlStep::Done(Ok(m)) => StepView::Done(Ok(m@)),
            ControlStep::Done(Err(e)) => StepView::Done(Err(e@)),
        }
    }
}

/// Where a control action stands.
#[derive(Clone, Copy, Debug, PartialEq, Eq, Structural)]
pub enum ControlPhase {
    /// Waiting to learn whether a managed unit is registered.
    UnitCheck,
    /// Waiting for the managed unit's own command.
    UnitCommand,
    /// Waiting to learn whether the runner has a control script.
    ScriptCheck,
    /// Waiting for the control script's `status`, before a start.
    ScriptStatus,
    /// Waiting for the control script's `install`.
    ScriptInstall,
    /// Waiting for the control script's own verb.
    ScriptAction,
    /// Waiting for the launch script to start, for a start.
    Launch,
    /// Waiting for the terminate signal, for a stop.
    Stop,
    /// Waiting for the terminate signal, for a restart.
    Terminate,
    /// Waiting for liveness pattern `pattern` after `pauses` waits, for a
    /// restart.
    Liveness { pattern: u32, pauses: u32 },
    /// Waiting for wait number `pauses` + 1 to end, for a restart.
    Pause { pauses: u32 },
    /// Waiting for the launch script to start again, for a restart.
    Relaunch,
    /// The outcome has been given.
    Over,
}

/// Number of liveness patterns tried in turn.
pub const LIVENESS_PATTERNS: u32 = 4;

/// Waits allowed for a terminated runner to exit during a restart.
pub const RESTART_PAUSE_LIMIT: u32 = 50;

/// Length of one wait, in milliseconds.
pub const RESTART_PAUSE_MS: u64 = 100;

/// A control action in progress against one runner.
pub struct Controller {
    pub runner: Runner,
    pub action: ControlAction,
    pub platform: Platform,
    /// Location of the runner's launchd agent definition.
    pub agent_file: String,
    /// The user id whose launchd domain holds the agent.
    pub uid: u32,
    pub phase: ControlPhase,
}

/// A controller as plain values.
pub ghost struct ControllerView {
    pub runner: RunnerView,
    pub action: ControlAction,
    pub platform: Platform,
    pub agent_file: Seq<char>,
    pub uid: u32,
    pub phase: ControlPhase,
}

impl View for Controller {
    type V = ControllerView;

    open spec fn view(&self) -> ControllerView {
        ControllerView {
            runner: self.runner@,
            action: self.action,
            platform: self.platform,
            agent_file: self.agent_file@,
            uid: self.uid,
            phase: self.phase,
        }
    }
}

/// A command line with no working directory.
pub open spec fn command(program: Seq<char>, args: Seq<Seq<char>>) -> CommandView {
    CommandView { program, args, dir: None }
}

/// The query whether systemd has the unit `svc`.
pub open spec fn unit_query(svc: Seq<char>) -> CommandView {
    command("systemctl"@, seq!["cat"@, svc])
}

/// The launchd agent definition of `svc`, relative to the home directory.
pub open spec fn agent_file_under_home(svc: Seq<char>) -> Seq<char> {
    "~/Library/LaunchAgents/"@ + svc + ".plist"@
}

/// The managed unit's own command for action `c.action`.
pub open spec fn unit_command(c: ControllerView) -> CommandView {
    let svc = c.runner.service_name;
    match c.platform {
        Platform::Linux => command("sudo"@, seq!["systemctl"@, action_text(c.action), svc]),
        Platform::MacOs => match c.action {
            ControlAction::Restart => command(
                "launchctl"@,
                seq!["kickstart"@, "-k"@, "gui/"@ + decimal(c.uid as nat) + "/"@ + svc],
            ),
            ControlAction::Start => command("launchctl"@, seq!["load"@, c.agent_file]),
            ControlAction::Stop => command("launchctl"@, seq!["unload"@, c.agent_file]),
        },
    }
}

/// The runner's control script.
pub open spec fn script_path(c: ControllerView) -> Seq<char> {
    child_path(c.runner.path, "svc.sh"@)
}

/// The control script run with `verb`, in the runner's directory, with
/// `sudo` under systemd.
pub open spec fn script_command(c: ControllerView, verb: Seq<char>) -> CommandView {
    match c.platform {
        Platform::Linux => CommandView {
            program: "sudo"@,
            args: seq![script_path(c), verb],
            dir: Some(c.runner.path),
        },
        Platform::MacOs => CommandView {
            program: script_path(c),
            args: seq![verb],
            dir: Some(c.runner.path),
        },
    }
}

/// The runner's launch script started detached, in its directory.
pub open spec fn launch_command(c: ControllerView) -> CommandView {
    CommandView {
        program: "nohup"@,
        args: seq![child_path(c.runner.path, "run.sh"@)],
        dir: Some(c.runner.path),
    }
}

/// The terminate signal to the runner's processes.
pub open spec fn terminate_command(c: ControllerView) -> CommandView {
    command("pkill"@, seq!["-f"@, "Runner.*"@ + c.runner.path])
}

/// Liveness pattern `k` of a runner directory.
pub open spec fn liveness_pattern(path: Seq<char>, k: u32) -> Seq<char> {
    if k == 0 {
        "Runner.Worker.*"@ + path
    } else if k == 1 {
        "Runner.Listener.*"@ + path
    } else if k == 2 {
        "dotnet.*"@ + path
    } else {
        path
    }
}

/// The query whether a process matches liveness pattern `k`.
pub open spec fn liveness_command(c: ControllerView, k: u32) -> CommandView {
    command("pgrep"@, seq!["-f"@, liveness_pattern(c.runner.path, k)])
}

/// The display name of the controlled runner.
pub open spec fn shown(c: ControllerView) -> Seq<char> {
    display_name_of(c.runner.repo, c.runner.number as nat)
}

/// The outcome of a managed unit's or control script's own command.
pub open spec fn command_outcome(c: ControllerView, e: EventView) -> Result<Seq<char>, ErrorView> {
    match e {
        EventView::Finished { success, stderr, .. } => if success {
            Ok("Successfully "@ + action_text(c.action) + "ed "@ + shown(c))
        } else {
            Err(
                ErrorView::CommandFailed(
                    "Failed to "@ + action_text(c.action) + " "@ + shown(c) + ": "@ + stderr,
                ),
            )
        },
        _ => Err(ErrorView::SpawnFailed(launch_failure(e))),
    }
}

/// Why a command was not started, from the answer given instead.
pub open spec fn launch_failure(e: EventView) -> Seq<char> {
    match e {
        EventView::LaunchFailed(m) => m,
        _ => "the command was not run"@,
    }
}

/// Whether the answer to a query says yes: a file that exists, or a
/// command that succeeded.
pub open spec fn affirms(e: EventView) -> bool {
    e == EventView::Exists(true) || (e matches EventView::Finished { success, .. } && success)
}

/// Whether a control script's `status` answer says it is not installed,
/// or gives no answer.
pub open spec fn needs_install(e: EventView) -> bool {
    match e {
        EventView::Finished { stdout, stderr, .. } => seq_contains(stdout, "not installed"@)
            || seq_contains(stderr, "not installed"@),
        _ => true,
    }
}

/// Whether a liveness query found a matching process.
pub open spec fn found_alive(e: EventView) -> bool {
    e matches EventView::Finished { success, stdout, .. } && success && stdout.len() > 0
}

/// How the terminate signal of a stop or restart (`verb`) failed, if it
/// did: it exited with a failure, or could not be started.
pub open spec fn terminate_failure(c: ControllerView, e: EventView, verb: Seq<char>) -> Option<
    ErrorView,
> {
    match e {
        EventView::Finished { success, stderr, .. } => if success {
            None
        } else {
            Some(
                ErrorView::CommandFailed(
                    "Failed to "@ + verb + " runner "@ + shown(c) + ": "@ + stderr,
                ),
            )
        },
        _ => Some(ErrorView::SpawnFailed("Failed to "@ + verb + " runner "@ + shown(c))),
    }
}

/// What the direct process control does first, once the tiers before it do
/// not apply.
pub open spec fn direct_start(c: ControllerView) -> (ControlPhase, StepView) {
    if !safe_path(c.runner.path) {
        (
            ControlPhase::Over,
            StepView::Done(
                Err(
                    ErrorView::Validation(
                        unsafe_path_message(
                            first_metachar(shell_metachars(), c.runner.path)->0,
                        ),
                    ),
                ),
            ),
        )
    } else {
        match c.action {
            ControlAction::Start => (
                ControlPhase::Launch,
                StepView::Request(RequestView::Spawn(launch_command(c))),
            ),
            ControlAction::Stop => (
                ControlPhase::Stop,
                StepView::Request(RequestView::Run(terminate_command(c))),
            ),
            ControlAction::Restart => (
                ControlPhase::Terminate,
                StepView::Request(RequestView::Run(terminate_command(c))),
            ),
        }
    }
}

/// The step that runs the control script with the action's own verb.
pub open spec fn script_action_step(c: ControllerView) -> (ControlPhase, StepView) {
    (
        ControlPhase::ScriptAction,
        StepView::Request(RequestView::Run(script_command(c, action_text(c.action)))),
    )
}

/// The next phase and step of controller `c` on answer `e`.
pub open spec fn transition(c: ControllerView, e: EventView) -> (ControlPhase, StepView) {
    match c.phase {
        ControlPhase::UnitCheck => if affirms(e) {
            (ControlPhase::UnitCommand, StepView::Request(RequestView::Run(unit_command(c))))
        } else {
            (ControlPhase::ScriptCheck, StepView::Request(RequestView::FileExists(script_path(c))))
        },
        ControlPhase::UnitCommand => (ControlPhase::Over, StepView::Done(command_outcome(c, e))),
        ControlPhase::ScriptCheck => if affirms(e) {
            if c.action == ControlAction::Start {
                (
                    ControlPhase::ScriptStatus,
                    StepView::Request(RequestView::Run(script_command(c, "status"@))),
                )
            } else {
                script_action_step(c)
            }
        } else {
            direct_start(c)
        },
        ControlPhase::ScriptStatus => if needs_install(e) {
            (
                ControlPhase::ScriptInstall,
                StepView::Request(RequestView::Run(script_command(c, "install"@))),
            )
        } else {
            script_action_step(c)
        },
        ControlPhase::ScriptInstall => match e {
            EventView::Finished { success, stderr, .. } => if success {
                script_action_step(c)
            } else {
                (
                    ControlPhase::Over,
                    StepView::Done(
                        Err(
                            ErrorView::CommandFailed(
                                "Failed to install service for "@ + shown(c) + ": "@ + stderr,
                            ),
                        ),
                    ),
                )
            },
            _ => (ControlPhase::Over, StepView::Done(Err(ErrorView::SpawnFailed(launch_failure(e))))),
        },
        ControlPhase::ScriptAction => (ControlPhase::Over, StepView::Done(command_outcome(c, e))),
        ControlPhase::Launch => if e == EventView::Launched {
            (ControlPhase::Over, StepView::Done(Ok("Started "@ + shown(c))))
        } else {
            (
                ControlPhase::Over,
                StepView::Done(Err(ErrorView::SpawnFailed("Failed to start runner "@ + shown(c)))),
            )
        },
        ControlPhase::Stop => match terminate_failure(c, e, "stop"@) {
            None => (ControlPhase::Over, StepView::Done(Ok("Stopped "@ + shown(c)))),
            Some(err) => (ControlPhase::Over, StepView::Done(Err(err))),
        },
        ControlPhase::Terminate => match terminate_failure(c, e, "restart"@) {
            None => (
                ControlPhase::Liveness { pattern: 0, pauses: 0 },
                StepView::Request(RequestView::Run(liveness_command(c, 0))),
            ),
            Some(err) => (ControlPhase::Over, StepView::Done(Err(err))),
        },
        ControlPhase::Liveness { pattern, pauses } => if found_alive(e) {
            if pauses >= RESTART_PAUSE_LIMIT {
                (
                    ControlPhase::Over,
                    StepView::Done(
                        Err(
                            ErrorView::Timeout(
                                "Timeout waiting for runner "@ + shown(c) + " to stop"@,
                            ),
                        ),
                    ),
                )
            } else {
                (
                    ControlPhase::Pause { pauses },
                    StepView::Request(RequestView::Sleep(RESTART_PAUSE_MS)),
                )
            }
        } else if pattern + 1 < LIVENESS_PATTERNS {
            (
                ControlPhase::Liveness { pattern: (pattern + 1) as u32, pauses },
                StepView::Request(RequestView::Run(liveness_command(c, (pattern + 1) as u32))),
            )
        } else {
            (ControlPhase::Relaunch, StepView::Request(RequestView::Spawn(launch_command(c))))
        },
        ControlPhase::Pause { pauses } => (
            ControlPhase::Liveness {
                pattern: 0,
                pauses: if pauses < RESTART_PAUSE_LIMIT { (pauses + 1) as u32 } else { pauses },
            },
            StepView::Request(RequestView::Run(liveness_command(c, 0))),
        ),
        ControlPhase::Relaunch => if e == EventView::Launched {
            (ControlPhase::Over, StepView::Done(Ok("Restarted "@ + shown(c))))
        } else {
            (
                ControlPhase::Over,
                StepView::Done(Err(ErrorView::SpawnFailed("Failed to restart runner "@ + shown(c)))),
            )
        },
        ControlPhase::Over => (
            ControlPhase::Over,
            StepView::Done(Err(ErrorView::Validation("no control action is in progress"@))),
        ),
    }
}


fn owned(s: &str) -> (r: String)
    ensures
        r@ == s@,
{
    String::from_str(s)
}

fn args1(a: String) -> (r: Vec<String>)
    ensures
        views(r@) == seq![a@],
{
    let mut r: Vec<String> = Vec::new();
    r.push(a);
    assert(views(r@) =~= seq![a@]);
    r
}

fn args2(a: String, b: String) -> (r: Vec<String>)
    ensures
        views(r@) == seq![a@, b@],
{
    let mut r: Vec<String> = Vec::new();
    r.push(a);
    r.push(b);
    assert(views(r@) =~= seq![a@, b@]);
    r
}

fn args3(a: String, b: String, c: String) -> (r: Vec<String>)
    ensures
        views(r@) == seq![a@, b@, c@],
{
    let mut r: Vec<String> = Vec::new();
    r.push(a);
    r.push(b);
    r.push(c);
    assert(views(r@) =~= seq![a@, b@, c@]);
    r
}

fn concat(a: &str, b: &str) -> (r: String)
    ensures
        r@ == a@ + b@,
{
    let mut r = owned(a);
    push_str(&mut r, b);
    r
}

fn unit_query_command(svc: &str) -> (r: CommandLine)
    ensures
        r@ == unit_query(svc@),
{
    CommandLine { program: owned("systemctl"), args: args2(owned("cat"), owned(svc)), dir: None }
}

/// Relies on `shellexpand::tilde`: a path that does not start with `~` is
/// returned as it is; one that does is returned as it is, or with the `~`
/// replaced by the home directory.
#[verifier::external_body]
fn expand_home(path: &str) -> (r: String)
    ensures
        !(path@.len() > 0 && path@[0] == '~') ==> r@ == path@,
        r@ == path@ || (r@.len() + 1 >= path@.len() && r@.subrange(
            r@.len() - (path@.len() - 1),
            r@.len() as int,
        ) == path@.drop_first()),
{
    shellexpand::tilde(path).into_owned()
}

impl Controller {
    fn unit_command_line(&self) -> (r: CommandLine)
        ensures
            r@ == unit_command(self@),
    {
        let svc = self.runner.service_name.as_str();
        match self.platform {
            Platform::Linux => CommandLine {
                program: owned("sudo"),
                args: args3(owned("systemctl"), owned(self.action.as_str()), owned(svc)),
                dir: None,
            },
            Platform::MacOs => match self.action {
                ControlAction::Restart => {
                    let mut target = owned("gui/");
                    push_decimal(&mut target, self.uid as u64);
                    push_str(&mut target, "/");
                    push_str(&mut target, svc);
                    CommandLine {
                        program: owned("launchctl"),
                        args: args3(owned("kickstart"), owned("-k"), target),
                        dir: None,
                    }
                },
                ControlAction::Start => CommandLine {
                    program: owned("launchctl"),
                    args: args2(owned("load"), self.agent_file.clone()),
                    dir: None,
                },
                ControlAction::Stop => CommandLine {
                    program: owned("launchctl"),
                    args: args2(owned("unload"), self.agent_file.clone()),
                    dir: None,
                },
            },
        }
    }

    fn script_command_line(&self, verb: &str) -> (r: CommandLine)
        ensures
            r@ == script_command(self@, verb@),
    {
        let script = join_path(self.runner.path.as_str(), "svc.sh");
        match self.platform {
            Platform::Linux => CommandLine {
                program: owned("sudo"),
                args: args2(script, owned(verb)),
                dir: Some(self.runner.path.clone()),
            },
            Platform::MacOs => CommandLine {
                program: script,
                args: args1(owned(verb)),
                dir: Some(self.runner.path.clone()),
            },
        }
    }

    fn launch_command_line(&self) -> (r: CommandLine)
        ensures
            r@ == launch_command(self@),
    {
        CommandLine {
            program: owned("nohup"),
            args: args1(join_path(self.runner.path.as_str(), "run.sh")),
            dir: Some(self.runner.path.clone()),
        }
    }

    fn terminate_command_line(&self) -> (r: CommandLine)
        ensures
            r@ == terminate_command(self@),
    {
        CommandLine {
            program: owned("pkill"),
            args: args2(owned("-f"), concat("Runner.*", self.runner.path.as_str())),
            dir: None,
        }
    }

    fn liveness_command_line(&self, k: u32) -> (r: CommandLine)
        ensures
            r@ == liveness_command(self@, k),
    {
        let path = self.runner.path.as_str();
        let pattern = if k == 0 {
            concat("Runner.Worker.*", path)
        } else if k == 1 {
            concat("Runner.Listener.*", path)
        } else if k == 2 {
            concat("dotnet.*", path)
        } else {
            owned(path)
        };
        CommandLine { program: owned("pgrep"), args: args2(owned("-f"), pattern), dir: None }
    }

    fn shown_name(&self) -> (r: String)
        ensures
            r@ == shown(self@),
    {
        self.runner.display_name()
    }

    fn finish(&mut self, outcome: Result<String, ControlError>) -> (r: ControlStep)
        ensures
            final(self)@ == (ControllerView { phase: ControlPhase::Over, ..old(self)@ }),
            r == ControlStep::Done(outcome),
    {
        self.phase = ControlPhase::Over;
        ControlStep::Done(outcome)
    }

    fn ask(&mut self, phase: ControlPhase, request: ControlRequest) -> (r: ControlStep)
        ensures
            final(self)@ == (ControllerView { phase, ..old(self)@ }),
            r == ControlStep::Request(request),
    {
        self.phase = phase;
        ControlStep::Request(request)
    }

    fn command_result(&self, event: &ControlEvent) -> (r: Result<String, ControlError>)
        ensures
            match r {
                Ok(m) => command_outcome(self@, event@) == Ok::<Seq<char>, ErrorView>(m@),
                Err(e) => command_outcome(self@, event@) == Err::<Seq<char>, ErrorView>(e@),
            },
    {
        match event {
            ControlEvent::Finished { success, stderr, .. } => {
                if *success {
                    let mut m = concat("Successfully ", self.action.as_str());
                    push_str(&mut m, "ed ");
                    push_str(&mut m, self.shown_name().as_str());
                    Ok(m)
                } else {
                    let mut m = concat("Failed to ", self.action.as_str());
                    push_str(&mut m, " ");
                    push_str(&mut m, self.shown_name().as_str());
                    push_str(&mut m, ": ");
                    push_str(&mut m, stderr.as_str());
                    Err(ControlError::CommandFailed(m))
                }
            },
            _ => Err(ControlError::SpawnFailed(launch_failure_text(event))),
        }
    }

    fn terminate_error(&self, event: &ControlEvent, verb: &str) -> (r: Option<ControlError>)
        ensures
            match r {
                None => terminate_failure(self@, event@, verb@) is None,
                Some(err) => terminate_failure(self@, event@, verb@) == Some(err@),
            },
    {
        let mut m = concat("Failed to ", verb);
        push_str(&mut m, " runner ");
        push_str(&mut m, self.shown_name().as_str());
        match event {
            ControlEvent::Finished { success, stderr, .. } => {
                if *success {
                    None
                } else {
                    push_str(&mut m, ": ");
                    push_str(&mut m, stderr.as_str());
                    Some(ControlError::CommandFailed(m))
                }
            },
            _ => Some(ControlError::SpawnFailed(m)),
        }
    }

    fn direct_control(&mut self) -> (r: ControlStep)
        ensures
            (final(self)@.phase, r@) == direct_start(old(self)@),
            final(self)@ == (ControllerView { phase: final(self)@.phase, ..old(self)@ }),
    {
        match validate_path(self.runner.path.as_str()) {
            Err(e) => self.finish(Err(e)),
            Ok(()) => match self.action {
                ControlAction::Start => {
                    let c = self.launch_command_line();
                    self.ask(ControlPhase::Launch, ControlRequest::Spawn(c))
                },
                ControlAction::Stop => {
                    let c = self.terminate_command_line();
                    self.ask(ControlPhase::Stop, ControlRequest::Run(c))
                },
                ControlAction::Restart => {
                    let c = self.terminate_command_line();
                    self.ask(ControlPhase::Terminate, ControlRequest::Run(c))
                },
            },
        }
    }

    fn run_script_action(&mut self) -> (r: ControlStep)
        ensures
            (final(self)@.phase, r@) == script_action_step(old(self)@),
            final(self)@ == (ControllerView { phase: final(self)@.phase, ..old(self)@ }),
    {
        let c = self.script_command_line(self.action.as_str());
        self.ask(ControlPhase::ScriptAction, ControlRequest::Run(c))
    }
}

fn launch_failure_text(e: &ControlEvent) -> (r: String)
    ensures
        r@ == launch_failure(e@),
{
    match e {
        ControlEvent::LaunchFailed(m) => m.clone(),
        _ => owned("the command was not run"),
    }
}

fn affirmed(e: &ControlEvent) -> (r: bool)
    ensures
        r == affirms(e@),
{
    match e {
        ControlEvent::Exists(b) => *b,
        ControlEvent::Finished { success, .. } => *success,
        _ => false,
    }
}

fn install_needed(e: &ControlEvent) -> (r: bool)
    ensures
        r == needs_install(e@),
{
    match e {
        ControlEvent::Finished { stdout, stderr, .. } => {
            let marker = chars_of("not installed");
            contains_chars(&chars_of(stdout.as_str()), &marker) || contains_chars(
                &chars_of(stderr.as_str()),
                &marker,
            )
        },
        _ => true,
    }
}

fn alive(e: &ControlEvent) -> (r: bool)
    ensures
        r == found_alive(e@),
{
    match e {
        ControlEvent::Finished { success, stdout, .. } => *success && chars_of(stdout.as_str()).len()
            > 0,
        _ => false,
    }
}


/// Why a control request is refused before anything is run, if it is.
pub open spec fn refusal(runner: RunnerView, action: Seq<char>) -> Option<Seq<char>> {
    if action_of(action) is None {
        Some("Invalid action: "@ + action)
    } else if !well_formed_name(runner.service_name) {
        Some("Invalid service name format"@)
    } else if !has_unit_prefix(runner.service_name) {
        Some("Service name must start with 'actions.runner.'"@)
    } else {
        None
    }
}

fn name_chars_ok(s: &Vec<char>) -> (r: bool)
    ensures
        r == well_formed_name(s@),
{
    let mut i: usize = 0;
    while i < s.len()
        invariant
            i <= s@.len(),
            forall|j: int| 0 <= j < i ==> is_name_char(#[trigger] s@[j]),
        decreases s.len() - i,
    {
        let c = s[i];
        if !(('a' <= c && c <= 'z') || ('A' <= c && c <= 'Z') || ('0' <= c && c <= '9') || c == '.'
            || c == '-' || c == '_') {
            assert(!is_name_char(s@[i as int]));
            return false;
        }
        i = i + 1;
    }
    true
}

fn prefix_ok(s: &Vec<char>) -> (r: bool)
    ensures
        r == has_unit_prefix(s@),
{
    let p = chars_of("actions.runner.");
    if s.len() < p.len() {
        return false;
    }
    let mut i: usize = 0;
    while i < p.len()
        invariant
            i <= p@.len() <= s@.len(),
            p@ == unit_prefix(),
            forall|j: int| 0 <= j < i ==> s@[j] == p@[j],
        decreases p.len() - i,
    {
        if s[i] != p[i] {
            assert(s@.subrange(0, p@.len() as int)[i as int] != p@[i as int]);
            return false;
        }
        i = i + 1;
    }
    assert(s@.subrange(0, p@.len() as int) =~= p@);
    true
}

/// Begins control action `action` against `runner`. The request is
/// refused, with nothing run, when the action is not exactly `start`,
/// `stop` or `restart`, when the service name holds a character other than
/// an ASCII letter or digit, `.`, `-`, `_`, or lacks the runner namespace.
/// Otherwise the first step asks whether a managed unit is registered.
pub fn control_runner(runner: &Runner, action: &str, platform: Platform, uid: u32) -> (r: Result<
    (Controller, ControlRequest),
    ControlError,
>)
    ensures
        match refusal(runner@, action@) {
            Some(m) => r matches Err(e) && e@ == ErrorView::Validation(m),
            None => r matches Ok((c, q)) && {
                &&& c@.runner == runner@
                &&& Some(c@.action) == action_of(action@)
                &&& c@.platform == platform
                &&& c@.uid == uid
                &&& c@.phase == ControlPhase::UnitCheck
                &&& match platform {
                    Platform::Linux => q@ == RequestView::Run(unit_query(runner@.service_name)),
                    Platform::MacOs => q@ == RequestView::FileExists(c@.agent_file),
                }
            },
        },
        platform == Platform::MacOs ==> (r matches Ok((c, q)) ==> {
            let f = agent_file_under_home(runner@.service_name);
            c@.agent_file == f || (c@.agent_file.len() + 1 >= f.len() && c@.agent_file.subrange(
                c@.agent_file.len() - (f.len() - 1),
                c@.agent_file.len() as int,
            ) == f.drop_first())
        }),
{
    let act = match ControlAction::parse(action) {
        Some(a) => a,
        None => {
            return Err(ControlError::Validation(concat("Invalid action: ", action)));
        },
    };
    let svc = chars_of(runner.service_name.as_str());
    if !name_chars_ok(&svc) {
        return Err(ControlError::Validation(owned("Invalid service name format")));
    }
    if !prefix_ok(&svc) {
        return Err(
            ControlError::Validation(owned("Service name must start with 'actions.runner.'")),
        );
    }
    let mut agent = owned("~/Library/LaunchAgents/");
    push_str(&mut agent, runner.service_name.as_str());
    push_str(&mut agent, ".plist");
    let agent_file = match platform {
        Platform::Linux => agent,
        Platform::MacOs => expand_home(agent.as_str()),
    };
    let first = match platform {
        Platform::Linux => ControlRequest::Run(unit_query_command(runner.service_name.as_str())),
        Platform::MacOs => ControlRequest::FileExists(agent_file.clone()),
    };
    let c = Controller {
        runner: runner.snapshot(),
        action: act,
        platform,
        agent_file,
        uid,
        phase: ControlPhase::UnitCheck,
    };
    Ok((c, first))
}

impl Controller {
    /// Takes the answer to the last request and gives the next step.
    pub fn advance(&mut self, event: &ControlEvent) -> (r: ControlStep)
        ensures
            (final(self)@.phase, r@) == transition(old(self)@, event@),
            final(self)@ == (ControllerView { phase: final(self)@.phase, ..old(self)@ }),
    {
        match self.phase {
            ControlPhase::UnitCheck => {
                if affirmed(event) {
                    let c = self.unit_command_line();
                    self.ask(ControlPhase::UnitCommand, ControlRequest::Run(c))
                } else {
                    let p = join_path(self.runner.path.as_str(), "svc.sh");
                    self.ask(ControlPhase::ScriptCheck, ControlRequest::FileExists(p))
                }
            },
            ControlPhase::UnitCommand => {
                let outcome = self.command_result(event);
                self.finish(outcome)
            },
            ControlPhase::ScriptCheck => {
                if affirmed(event) {
                    if self.action == ControlAction::Start {
                        let c = self.script_command_line("status");
                        self.ask(ControlPhase::ScriptStatus, ControlRequest::Run(c))
                    } else {
                        self.run_script_action()
                    }
                } else {
                    self.direct_control()
                }
            },
            ControlPhase::ScriptStatus => {
                if install_needed(event) {
                    let c = self.script_command_line("install");
                    self.ask(ControlPhase::ScriptInstall, ControlRequest::Run(c))
                } else {
                    self.run_script_action()
                }
            },
            ControlPhase::ScriptInstall => match event {
                ControlEvent::Finished { success, stderr, .. } => {
                    if *success {
                        self.run_script_action()
                    } else {
                        let mut m = concat("Failed to install service for ", self.shown_name().as_str());
                        push_str(&mut m, ": ");
                        push_str(&mut m, stderr.as_str());
                        self.finish(Err(ControlError::CommandFailed(m)))
                    }
                },
                _ => {
                    let m = launch_failure_text(event);
                    self.finish(Err(ControlError::SpawnFailed(m)))
                },
            },
            ControlPhase::ScriptAction => {
                let outcome = self.command_result(event);
                self.finish(outcome)
            },
            ControlPhase::Launch => {
                let name = self.shown_name();
                if let ControlEvent::Launched = event {
                    self.finish(Ok(concat("Started ", name.as_str())))
                } else {
                    self.finish(Err(ControlError::SpawnFailed(concat("Failed to start runner ", name.as_str()))))
                }
            },
            ControlPhase::Stop => match self.terminate_error(event, "stop") {
                None => {
                    let name = self.shown_name();
                    self.finish(Ok(concat("Stopped ", name.as_str())))
                },
                Some(err) => self.finish(Err(err)),
            },
            ControlPhase::Terminate => match self.terminate_error(event, "restart") {
                None => {
                    let c = self.liveness_command_line(0);
                    self.ask(ControlPhase::Liveness { pattern: 0, pauses: 0 }, ControlRequest::Run(c))
                },
                Some(err) => self.finish(Err(err)),
            },
            ControlPhase::Liveness { pattern, pauses } => {
                if alive(event) {
                    if pauses >= RESTART_PAUSE_LIMIT {
                        let mut m = concat("Timeout waiting for runner ", self.shown_name().as_str());
                        push_str(&mut m, " to stop");
                        self.finish(Err(ControlError::Timeout(m)))
                    } else {
                        self.ask(ControlPhase::Pause { pauses }, ControlRequest::Sleep(RESTART_PAUSE_MS))
                    }
                } else if pattern < LIVENESS_PATTERNS - 1 {
                    let c = self.liveness_command_line(pattern + 1);
                    self.ask(ControlPhase::Liveness { pattern: pattern + 1, pauses }, ControlRequest::Run(c))
                } else {
                    let c = self.launch_command_line();
                    self.ask(ControlPhase::Relaunch, ControlRequest::Spawn(c))
                }
            },
            ControlPhase::Pause { pauses } => {
                let c = self.liveness_command_line(0);
                let next = if pauses < RESTART_PAUSE_LIMIT { pauses + 1 } else { pauses };
                self.ask(ControlPhase::Liveness { pattern: 0, pauses: next }, ControlRequest::Run(c))
            },
            ControlPhase::Relaunch => {
                let name = self.shown_name();
                if let ControlEvent::Launched = event {
                    self.finish(Ok(concat("Restarted ", name.as_str())))
                } else {
                    self.finish(Err(ControlError::SpawnFailed(concat("Failed to restart runner ", name.as_str()))))
                }
            },
            ControlPhase::Over => {
                self.finish(Err(ControlError::Validation(owned("no control action is in progress"))))
            },
        }
    }
}

/// A service name holding a shell metacharacter is refused before anything
/// is run, whatever the action.
pub proof fn lemma_metachar_in_name_refused(runner: RunnerView, action: Seq<char>, i: int)
    requires
        0 <= i < runner.service_name.len(),
        shell_metachars().contains(runner.service_name[i]),
    ensures
        refusal(runner, action) is Some,
{
    let c = runner.service_name[i];
    let k = choose|k: int| 0 <= k < shell_metachars().len() && shell_metachars()[k] == c;
    assert(!is_name_char(c));
    assert(!well_formed_name(runner.service_name));
}

/// The phases in which a command that matches processes by the runner's
/// path is outstanding or follows.
pub open spec fn matching_phase(p: ControlPhase) -> bool {
    match p {
        ControlPhase::Launch | ControlPhase::Stop | ControlPhase::Terminate
        | ControlPhase::Liveness { .. } | ControlPhase::Pause { .. } | ControlPhase::Relaunch => true,
        _ => false,
    }
}

/// The runner's path was checked before any phase that matches processes by
/// it.
pub open spec fn path_checked(c: ControllerView) -> bool {
    matching_phase(c.phase) ==> safe_path(c.runner.path)
}

/// A controller reaches the phases that match processes by the runner's
/// path only when the path holds no shell metacharacter; with one, the
/// direct control ends in a validation error and runs nothing.
pub proof fn lemma_path_checked_before_matching(c: ControllerView, e: EventView)
    requires
        path_checked(c),
    ensures
        path_checked(ControllerView { phase: transition(c, e).0, ..c }),
        c.phase == ControlPhase::ScriptCheck && !affirms(e) && !safe_path(c.runner.path) ==> (
        transition(c, e).1 matches StepView::Done(Err(ErrorView::Validation(_)))),
{
}

/// During a restart, the launch script is started again only from the
/// liveness checks, which follow the terminate signal.
pub proof fn lemma_restart_spawns_after_terminate(c: ControllerView, e: EventView)
    requires
        c.action == ControlAction::Restart,
    ensures
        transition(c, e).1 matches StepView::Request(RequestView::Spawn(_)) ==> c.phase
            is Liveness,
        transition(c, e).0 is Liveness ==> (c.phase is Terminate || c.phase is Liveness
            || c.phase is Pause),
        transition(c, e).0 is Terminate ==> c.phase == ControlPhase::ScriptCheck && transition(
            c,
            e,
        ).1 == StepView::Request(RequestView::Run(terminate_command(c))),
{
}

/// A restart times out only when a runner process is still seen after all
/// allowed waits; the timeout is its own error kind, and nothing is run
/// after it.
pub proof fn lemma_timeout_is_final(c: ControllerView, e: EventView, later: EventView)
    ensures
        transition(c, e).1 matches StepView::Done(Err(ErrorView::Timeout(_))) ==> {
            &&& c.phase matches ControlPhase::Liveness { pauses, .. } && pauses
                >= RESTART_PAUSE_LIMIT
            &&& found_alive(e)
            &&& transition(c, e).0 == ControlPhase::Over
            &&& transition(ControllerView { phase: transition(c, e).0, ..c }, later).1 is Done
        },
{
}

/// The steps that controller `c` gives for the answers `es`, in order.
pub open spec fn run_steps(c: ControllerView, es: Seq<EventView>) -> Seq<StepView>
    decreases es.len(),
{
    if es.len() == 0 {
        seq![]
    } else {
        let (p, st) = transition(c, es[0]);
        seq![st] + run_steps(ControllerView { phase: p, ..c }, es.drop_first())
    }
}

/// Whether a step starts a command in the background.
pub open spec fn is_spawn(s: StepView) -> bool {
    s matches StepView::Request(RequestView::Spawn(_))
}

/// The phases a restart reaches only once the terminate signal was asked for.
pub open spec fn after_terminate(p: ControlPhase) -> bool {
    match p {
        ControlPhase::Terminate | ControlPhase::Liveness { .. } | ControlPhase::Pause { .. }
        | ControlPhase::Relaunch => true,
        _ => false,
    }
}

proof fn lemma_run_step(c: ControllerView, es: Seq<EventView>, i: int)
    requires
        es.len() > 0,
        0 < i < run_steps(c, es).len(),
    ensures
        run_steps(c, es).len() == es.len(),
        run_steps(c, es)[i] == run_steps(
            ControllerView { phase: transition(c, es[0]).0, ..c },
            es.drop_first(),
        )[i - 1],
{
    lemma_run_len(c, es);
}

proof fn lemma_run_len(c: ControllerView, es: Seq<EventView>)
    ensures
        run_steps(c, es).len() == es.len(),
    decreases es.len(),
{
    if es.len() > 0 {
        lemma_run_len(ControllerView { phase: transition(c, es[0]).0, ..c }, es.drop_first());
    }
}

proof fn lemma_no_spawn_after_relaunch(c: ControllerView, es: Seq<EventView>)
    requires
        c.phase == ControlPhase::Relaunch || c.phase == ControlPhase::Over,
    ensures
        forall|i: int| 0 <= i < run_steps(c, es).len() ==> !is_spawn(#[trigger] run_steps(c, es)[i]),
    decreases es.len(),
{
    lemma_run_len(c, es);
    if es.len() > 0 {
        let c2 = ControllerView { phase: transition(c, es[0]).0, ..c };
        lemma_no_spawn_after_relaunch(c2, es.drop_first());
        assert forall|i: int| 0 <= i < run_steps(c, es).len() implies !is_spawn(
            #[trigger] run_steps(c, es)[i],
        ) by {
            if i > 0 {
                lemma_run_step(c, es, i);
            }
        }
    }
}

/// Over any run of answers, a restart starts the launch script at most
/// once, and only after it has asked for the terminate signal, unless it
/// was already past that request.
pub proof fn lemma_restart_run(c: ControllerView, es: Seq<EventView>)
    requires
        c.action == ControlAction::Restart,
    ensures
        forall|i: int|
            0 <= i < run_steps(c, es).len() && is_spawn(#[trigger] run_steps(c, es)[i]) ==> (
            after_terminate(c.phase) || exists|j: int|
                0 <= j < i && #[trigger] run_steps(c, es)[j] == StepView::Request(
                    RequestView::Run(terminate_command(c)),
                )),
        forall|i: int, k: int|
            0 <= i < k < run_steps(c, es).len() ==> !(is_spawn(#[trigger] run_steps(c, es)[i])
                && is_spawn(#[trigger] run_steps(c, es)[k])),
    decreases es.len(),
{
    lemma_run_len(c, es);
    if es.len() > 0 {
        let (p, st) = transition(c, es[0]);
        let c2 = ControllerView { phase: p, ..c };
        let rest = es.drop_first();
        lemma_restart_run(c2, rest);
        lemma_restart_spawns_after_terminate(c, es[0]);
        let steps = run_steps(c, es);
        assert(steps[0] == st);
        assert forall|i: int|
            0 <= i < steps.len() && is_spawn(#[trigger] steps[i]) implies (after_terminate(c.phase)
            || exists|j: int|
            0 <= j < i && #[trigger] steps[j] == StepView::Request(
                RequestView::Run(terminate_command(c)),
            )) by {
            if i > 0 {
                lemma_run_step(c, es, i);
                if after_terminate(p) {
                    if !after_terminate(c.phase) {
                        assert(p is Terminate);
                        assert(steps[0] == StepView::Request(RequestView::Run(terminate_command(c))));
                    }
                } else {
                    let j = choose|j: int|
                        0 <= j < i - 1 && #[trigger] run_steps(c2, rest)[j] == StepView::Request(
                            RequestView::Run(terminate_command(c2)),
                        );
                    lemma_run_step(c, es, j + 1);
                    assert(steps[j + 1] == StepView::Request(RequestView::Run(terminate_command(c))));
                }
            }
        }
        assert forall|i: int, k: int|
            0 <= i < k < steps.len() implies !(is_spawn(#[trigger] steps[i]) && is_spawn(
                #[trigger] steps[k],
            )) by {
            lemma_run_step(c, es, k);
            if i > 0 {
                lemma_run_step(c, es, i);
                assert(!(is_spawn(run_steps(c2, rest)[i - 1]) && is_spawn(run_steps(c2, rest)[k - 1])));
            } else if is_spawn(st) {
                assert(p == ControlPhase::Relaunch);
                lemma_no_spawn_after_relaunch(c2, rest);
                assert(!is_spawn(run_steps(c2, rest)[k - 1]));
            }
        }
    }
}

} // verus!
