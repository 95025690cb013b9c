//! How a task is launched, what is remembered of its stream, and how its end is
//! told apart: it exited, it was interrupted, or it ran out of time.
//!
//! Interruption and timeout are facts here, not errors. They are reported with
//! the exit; what they mean for the task is decided elsewhere.

use crate::events::{ThreadEvent, ThreadItemDetails, Usage};
use crate::paths;
use crate::registry::TaskId;
use crate::session::SandboxMode;
use crate::text;
use vstd::prelude::*;

verus! {

/// Which program is run, and with which home directory. The home directory is
/// always handed over explicitly.
#[derive(Debug)]
pub struct ExecutorConfig {
    /// The program.
    pub codex_bin: String,
    /// Its home directory.
    pub codex_home: String,
}

/// One run of the program, fully determined.
#[derive(Debug)]
pub struct LaunchPlan {
    /// The instruction.
    pub prompt: String,
    /// The name of the model.
    pub model: Option<String>,
    /// How much the run may touch.
    pub sandbox: SandboxMode,
    /// Where it works.
    pub cwd: String,
    /// Configuration that is overridden, by key and value.
    pub overrides: Vec<(String, String)>,
    /// The conversation to resume, if any.
    pub resume: Option<String>,
    /// Whether it may work outside of a repository.
    pub skip_git_repo_check: bool,
    /// How many milliseconds it may take.
    pub timeout: Option<u128>,
}

/// The arguments for the overridden configuration.
pub open spec fn override_args(overrides: Seq<(String, String)>) -> Seq<Seq<char>>
    decreases overrides.len(),
{
    if overrides.len() == 0 {
        Seq::empty()
    } else {
        override_args(overrides.drop_last()).push("-c"@).push(
            overrides.last().0@ + "="@ + overrides.last().1@,
        )
    }
}

impl LaunchPlan {
    /// The arguments before the overridden configuration.
    pub open spec fn head_args(&self) -> Seq<Seq<char>> {
        seq!["exec"@, "--json"@] + (if self.skip_git_repo_check {
            seq!["--skip-git-repo-check"@]
        } else {
            Seq::empty()
        }) + (match self.model {
            Some(model) => seq!["-m"@, model@],
            None => Seq::empty(),
        }) + seq!["-s"@, self.sandbox.name()]
    }

    /// The arguments behind the overridden configuration.
    pub open spec fn tail_args(&self) -> Seq<Seq<char>> {
        match self.resume {
            Some(id) => seq!["resume"@, "--"@, id@, self.prompt@],
            None => seq!["--"@, self.prompt@],
        }
    }

    /// All arguments.
    pub open spec fn args(&self) -> Seq<Seq<char>> {
        self.head_args() + override_args(self.overrides@) + self.tail_args()
    }

    /// The arguments of the program.
    pub fn to_args(&self) -> (args: Vec<String>)
        ensures
            text::texts(args@) == self.args(),
    {
        let mut args: Vec<String> = Vec::new();
        args.push("exec".to_owned());
        args.push("--json".to_owned());
        if self.skip_git_repo_check {
            args.push("--skip-git-repo-check".to_owned());
        }
        match &self.model {
            Some(model) => {
                args.push("-m".to_owned());
                args.push(model.clone());
            },
            None => {},
        }
        args.push("-s".to_owned());
        args.push(self.sandbox.cli_name().to_owned());
        assert(text::texts(args@) =~= self.head_args());
        let mut at: usize = 0;
        assert(self.overrides@.take(0) =~= Seq::<(String, String)>::empty());
        assert(text::texts(args@) =~= self.head_args() + override_args(self.overrides@.take(0)));
        while at < self.overrides.len()
            invariant
                at <= self.overrides@.len(),
                text::texts(args@) == self.head_args() + override_args(
                    self.overrides@.take(at as int),
                ),
            decreases self.overrides@.len() - at,
        {
            let ghost earlier = args@;
            let ghost done = self.overrides@.take(at as int);
            let setting = text::cat3(
                self.overrides[at].0.as_str(),
                "=",
                self.overrides[at].1.as_str(),
            );
            args.push("-c".to_owned());
            args.push(setting);
            assert(self.overrides@.take(at + 1).drop_last() =~= done);
            assert(text::texts(args@) =~= text::texts(earlier).push("-c"@).push(setting@));
            assert(text::texts(args@) =~= self.head_args() + override_args(
                self.overrides@.take(at + 1),
            ));
            at = at + 1;
        }
        assert(self.overrides@.take(at as int) =~= self.overrides@);
        match &self.resume {
            Some(id) => {
                args.push("resume".to_owned());
                args.push("--".to_owned());
                args.push(id.clone());
                args.push(self.prompt.clone());
            },
            None => {
                args.push("--".to_owned());
                args.push(self.prompt.clone());
            },
        }
        assert(text::texts(args@) =~= self.args());
        args
    }
}

/// Law: the prompt is the last argument and stands behind `--`, so that no
/// prompt is ever taken for an option; and a resumed run names its conversation
/// right before it.
pub proof fn law_prompt_is_never_an_option(plan: LaunchPlan)
    ensures
        ({
            let args = plan.args();
            &&& args.len() >= 6
            &&& args.last() == plan.prompt@
            &&& plan.resume is None ==> args[args.len() - 2] == "--"@
            &&& plan.resume matches Some(id) ==> args.skip(args.len() - 4) == seq![
                "resume"@,
                "--"@,
                id@,
                plan.prompt@,
            ]
        }),
{
    let args = plan.args();
    let front = plan.head_args() + override_args(plan.overrides@);
    assert(args.skip(front.len() as int) =~= plan.tail_args());
    assert(args.last() == plan.tail_args().last());
}

/// Law: a run for which a model is planned names it, also when it resumes a
/// conversation.
pub proof fn law_model_is_always_named(plan: LaunchPlan)
    requires
        plan.model is Some,
    ensures
        exists|i: int|
            0 <= i < plan.args().len() - 1 && #[trigger] plan.args()[i] == "-m"@ && plan.args()[i
                + 1] == plan.model->Some_0@,
{
    let at: int = if plan.skip_git_repo_check {
        3
    } else {
        2
    };
    assert(plan.args()[at] == "-m"@);
    assert(plan.args()[at + 1] == plan.model->Some_0@);
}

/// A run as the operating system gets it. It is put into a process group of its
/// own, reads nothing, and is killed when it is dropped.
#[derive(Debug)]
pub struct LaunchCommand {
    /// The task it belongs to.
    pub task: TaskId,
    /// The program.
    pub program: String,
    /// Its arguments.
    pub args: Vec<String>,
    /// What is set in its environment: the home directory.
    pub codex_home: String,
    /// Where it works.
    pub cwd: String,
    /// Where its output is kept, line by line.
    pub stdout_path: String,
    /// Where its diagnostics are kept, line by line.
    pub stderr_path: String,
    /// How many milliseconds it may take.
    pub timeout: Option<u128>,
}

impl LaunchCommand {
    /// Whether this is what the operating system gets for a run of `plan`.
    pub open spec fn runs(
        self,
        config: ExecutorConfig,
        task: TaskId,
        plan: LaunchPlan,
        events_path: Seq<char>,
    ) -> bool {
        &&& self.task == task
        &&& self.program == config.codex_bin
        &&& text::texts(self.args@) == plan.args()
        &&& self.codex_home == config.codex_home
        &&& self.cwd == plan.cwd
        &&& self.stdout_path@ == events_path
        &&& self.stderr_path@ == paths::path_with_extension(events_path, "stderr.log"@)
        &&& self.timeout == plan.timeout
    }
}

/// What is handed to the operating system for a run of `plan`.
pub fn launch(
    config: &ExecutorConfig,
    task: TaskId,
    plan: &LaunchPlan,
    events_path: &str,
) -> (command: LaunchCommand)
    ensures
        command.runs(*config, task, *plan, events_path@),
{
    LaunchCommand {
        task,
        program: config.codex_bin.clone(),
        args: plan.to_args(),
        codex_home: config.codex_home.clone(),
        cwd: plan.cwd.clone(),
        stdout_path: events_path.to_owned(),
        stderr_path: paths::with_extension(events_path, "stderr.log"),
        timeout: plan.timeout,
    }
}

/// What a run says while it runs.
#[derive(Debug)]
pub enum ExecutorEvent {
    /// A line of output that is an event.
    Parsed(ThreadEvent),
    /// A line of output that is none. It is kept: a model that writes its tool
    /// calls into the text channel shows up here.
    ParseError {
        /// The line.
        line: String,
        /// Why it is no event.
        error: String,
    },
    /// A line of diagnostics.
    StderrLine(String),
}

/// What a line of output is reported as, given what it was read as.
pub fn stdout_event(line: String, read: Result<ThreadEvent, String>) -> (event: ExecutorEvent)
    ensures
        event == match read {
            Ok(parsed) => ExecutorEvent::Parsed(parsed),
            Err(error) => ExecutorEvent::ParseError { line, error },
        },
{
    match read {
        Ok(parsed) => ExecutorEvent::Parsed(parsed),
        Err(error) => ExecutorEvent::ParseError { line, error },
    }
}

/// What is remembered of the stream of a run: of each kind of fact the last one
/// that was seen.
#[derive(Debug)]
pub struct StreamSummary {
    /// The conversation.
    pub thread_id: Option<String>,
    /// What the last finished turn cost.
    pub usage: Option<Usage>,
    /// The last thing the model said.
    pub last_agent_message: Option<String>,
    /// Why a turn failed.
    pub turn_failed: Option<String>,
    /// Why the stream failed.
    pub fatal_error: Option<String>,
}

impl StreamSummary {
    /// What is remembered before anything was seen.
    pub open spec fn nothing() -> StreamSummary {
        StreamSummary {
            thread_id: None,
            usage: None,
            last_agent_message: None,
            turn_failed: None,
            fatal_error: None,
        }
    }

    /// What is remembered once `event` was seen.
    pub open spec fn folded(self, event: ThreadEvent) -> StreamSummary {
        match event {
            ThreadEvent::ThreadStarted { thread_id } => StreamSummary {
                thread_id: Some(thread_id),
                ..self
            },
            ThreadEvent::TurnCompleted { usage } => StreamSummary { usage: Some(usage), ..self },
            ThreadEvent::TurnFailed { message } => StreamSummary {
                turn_failed: Some(message),
                ..self
            },
            ThreadEvent::Error { message } => StreamSummary {
                fatal_error: Some(message),
                ..self
            },
            ThreadEvent::ItemCompleted { item: ThreadItemDetails::AgentMessage { text } } =>
                StreamSummary { last_agent_message: Some(text), ..self },
            _ => self,
        }
    }

    /// Nothing was seen yet.
    pub fn new() -> (out: Self)
        ensures
            out == Self::nothing(),
    {
        StreamSummary {
            thread_id: None,
            usage: None,
            last_agent_message: None,
            turn_failed: None,
            fatal_error: None,
        }
    }
}

/// Remembers what `event` says.
pub fn fold_event(summary: &mut StreamSummary, event: &ThreadEvent)
    ensures
        *final(summary) == old(summary).folded(*event),
{
    match event {
        ThreadEvent::ThreadStarted { thread_id } => {
            summary.thread_id = Some(thread_id.clone());
        },
        ThreadEvent::TurnCompleted { usage } => {
            summary.usage = Some(*usage);
        },
        ThreadEvent::TurnFailed { message } => {
            summary.turn_failed = Some(message.clone());
        },
        ThreadEvent::Error { message } => {
            summary.fatal_error = Some(message.clone());
        },
        ThreadEvent::ItemCompleted { item } => match item {
            ThreadItemDetails::AgentMessage { text } => {
                summary.last_agent_message = Some(text.clone());
            },
            _ => {},
        },
        _ => {},
    }
}

/// What is remembered of a whole stream.
pub open spec fn summary_of(events: Seq<ThreadEvent>) -> StreamSummary
    decreases events.len(),
{
    if events.len() == 0 {
        StreamSummary::nothing()
    } else {
        summary_of(events.drop_last()).folded(events.last())
    }
}

/// Whether an event carries something that the model said.
pub open spec fn speaks(event: ThreadEvent) -> bool {
    event matches ThreadEvent::ItemCompleted { item } && item is AgentMessage
}

/// Law: of each kind of fact the last one is remembered. An event of another
/// kind never makes a fact forgotten or changes it: once a conversation has
/// begun, a turn has failed or the stream has failed, the summary says so
/// however the stream goes on.
pub proof fn law_facts_are_not_forgotten(seen: Seq<ThreadEvent>, later: Seq<ThreadEvent>)
    ensures
        (forall|i: int| 0 <= i < later.len() ==> !((#[trigger] later[i]) is ThreadStarted))
            ==> summary_of(seen + later).thread_id == summary_of(seen).thread_id,
        (forall|i: int| 0 <= i < later.len() ==> !((#[trigger] later[i]) is TurnCompleted))
            ==> summary_of(seen + later).usage == summary_of(seen).usage,
        (forall|i: int| 0 <= i < later.len() ==> !((#[trigger] later[i]) is TurnFailed))
            ==> summary_of(seen + later).turn_failed == summary_of(seen).turn_failed,
        (forall|i: int| 0 <= i < later.len() ==> !((#[trigger] later[i]) is Error))
            ==> summary_of(seen + later).fatal_error == summary_of(seen).fatal_error,
        (forall|i: int| 0 <= i < later.len() ==> !speaks(#[trigger] later[i])) ==> summary_of(
            seen + later,
        ).last_agent_message == summary_of(seen).last_agent_message,
        summary_of(seen).thread_id is Some ==> summary_of(seen + later).thread_id is Some,
        summary_of(seen).usage is Some ==> summary_of(seen + later).usage is Some,
        summary_of(seen).turn_failed is Some ==> summary_of(seen + later).turn_failed is Some,
        summary_of(seen).fatal_error is Some ==> summary_of(seen + later).fatal_error is Some,
        summary_of(seen).last_agent_message is Some ==> summary_of(
            seen + later,
        ).last_agent_message is Some,
    decreases later.len(),
{
    if later.len() == 0 {
        assert(seen + later =~= seen);
    } else {
        law_facts_are_not_forgotten(seen, later.drop_last());
        assert((seen + later).drop_last() =~= seen + later.drop_last());
        assert((seen + later).last() == later.last());
        assert(forall|i: int| 0 <= i < later.len() - 1 ==> later.drop_last()[i] == later[i]);
    }
}

/// The facts at the end of a run. They are what a verdict is made from; they
/// are no verdict.
#[derive(Debug)]
pub struct TaskExit {
    /// What the process ended with; nothing where it was killed.
    pub exit_code: Option<i32>,
    /// Whether it was interrupted.
    pub interrupted: bool,
    /// Whether it ran out of time.
    pub timed_out: bool,
    /// The conversation.
    pub thread_id: Option<String>,
    /// What the last finished turn cost.
    pub usage: Option<Usage>,
    /// The last thing the model said.
    pub last_agent_message: Option<String>,
    /// Why a turn failed.
    pub turn_failed: Option<String>,
    /// Why the stream failed.
    pub fatal_error: Option<String>,
}

impl Default for TaskExit {
    fn default() -> (out: Self)
        ensures
            out == (TaskExit {
                exit_code: None,
                interrupted: false,
                timed_out: false,
                thread_id: None,
                usage: None,
                last_agent_message: None,
                turn_failed: None,
                fatal_error: None,
            }),
    {
        TaskExit {
            exit_code: None,
            interrupted: false,
            timed_out: false,
            thread_id: None,
            usage: None,
            last_agent_message: None,
            turn_failed: None,
            fatal_error: None,
        }
    }
}

/// The facts at the end of a run, from how the process ended and what is
/// remembered of its stream.
pub fn exit_of(
    exit_code: Option<i32>,
    interrupted: bool,
    timed_out: bool,
    summary: StreamSummary,
) -> (exit: TaskExit)
    ensures
        exit == (TaskExit {
            exit_code,
            interrupted,
            timed_out,
            thread_id: summary.thread_id,
            usage: summary.usage,
            last_agent_message: summary.last_agent_message,
            turn_failed: summary.turn_failed,
            fatal_error: summary.fatal_error,
        }),
{
    TaskExit {
        exit_code,
        interrupted,
        timed_out,
        thread_id: summary.thread_id,
        usage: summary.usage,
        last_agent_message: summary.last_agent_message,
        turn_failed: summary.turn_failed,
        fatal_error: summary.fatal_error,
    }
}

/// How many seconds the pumps get to drain once the process is gone.
pub const PUMP_GRACE_SECS: u64 = 5;

/// Something that happens while a process is watched.
#[derive(Debug)]
pub enum ChildSignal {
    /// It ended by itself.
    Exited,
    /// Waiting for it failed.
    WaitFailed {
        /// What the system said.
        detail: String,
    },
    /// Somebody asked for it to be stopped.
    InterruptRequested,
    /// Nobody can ask for it to be stopped any more.
    InterruptDropped,
    /// Its time is up.
    TimedOut,
}

/// What to do about it.
#[derive(Debug)]
pub enum ChildStep {
    /// Go on watching.
    KeepWatching,
    /// Stop watching.
    Finish {
        /// Whether it was interrupted.
        interrupted: bool,
        /// Whether it ran out of time.
        timed_out: bool,
        /// Whether its whole process group has to be killed first.
        kill: bool,
    },
    /// Give up.
    Fail(ExecError),
}

/// A process that is being watched.
#[derive(Clone, Copy, Debug, PartialEq, Eq, Structural)]
pub struct ChildWatch {
    /// Whether an interruption can still come.
    pub interrupt_armed: bool,
}

impl ChildWatch {
    /// Starts to watch.
    pub fn new() -> (out: Self)
        ensures
            out.interrupt_armed,
    {
        ChildWatch { interrupt_armed: true }
    }

    /// Decides what a signal means. That nobody can interrupt any more is no
    /// interruption: the watch goes on without it.
    pub fn step(&mut self, signal: ChildSignal) -> (out: ChildStep)
        ensures
            final(self).interrupt_armed == (old(self).interrupt_armed && !(signal
                is InterruptDropped)),
            out == match signal {
                ChildSignal::Exited => ChildStep::Finish {
                    interrupted: false,
                    timed_out: false,
                    kill: false,
                },
                ChildSignal::WaitFailed { detail } => ChildStep::Fail(ExecError::Wait { detail }),
                ChildSignal::InterruptRequested => if old(self).interrupt_armed {
                    ChildStep::Finish { interrupted: true, timed_out: false, kill: true }
                } else {
                    ChildStep::KeepWatching
                },
                ChildSignal::InterruptDropped => ChildStep::KeepWatching,
                ChildSignal::TimedOut => ChildStep::Finish {
                    interrupted: false,
                    timed_out: true,
                    kill: true,
                },
            },
    {
        match signal {
            ChildSignal::Exited => ChildStep::Finish {
                interrupted: false,
                timed_out: false,
                kill: false,
            },
            ChildSignal::WaitFailed { detail } => ChildStep::Fail(ExecError::Wait { detail }),
            ChildSignal::InterruptRequested => {
                if self.interrupt_armed {
                    ChildStep::Finish { interrupted: true, timed_out: false, kill: true }
                } else {
                    ChildStep::KeepWatching
                }
            },
            ChildSignal::InterruptDropped => {
                self.interrupt_armed = false;
                ChildStep::KeepWatching
            },
            ChildSignal::TimedOut => ChildStep::Finish {
                interrupted: false,
                timed_out: true,
                kill: true,
            },
        }
    }
}

/// Why a run could not be carried out.
#[derive(Debug)]
pub enum ExecError {
    /// The program did not start.
    Spawn {
        /// The program.
        bin: String,
        /// What the system said.
        detail: String,
    },
    /// The event stream could not be kept.
    EventsFile {
        /// The file.
        path: String,
        /// What the system said.
        detail: String,
    },
    /// Waiting for the process failed.
    Wait {
        /// What the system said.
        detail: String,
    },
    /// Something that should not happen.
    Internal {
        /// What it was.
        message: String,
    },
}

impl ExecError {
    /// The error in words.
    pub open spec fn words(&self) -> Seq<char> {
        match self {
            ExecError::Spawn { bin, .. } => "failed to spawn "@ + bin@,
            ExecError::EventsFile { path, .. } => "failed to open events file "@ + path@,
            ExecError::Wait { .. } => "failed waiting for child process"@,
            ExecError::Internal { message } => "executor internal failure: "@ + message@,
        }
    }

    /// The error in words.
    pub fn message(&self) -> (out: String)
        ensures
            out@ == self.words(),
    {
        match self {
            ExecError::Spawn { bin, .. } => text::cat2("failed to spawn ", bin.as_str()),
            ExecError::EventsFile { path, .. } => text::cat2(
                "failed to open events file ",
                path.as_str(),
            ),
            ExecError::Wait { .. } => "failed waiting for child process".to_owned(),
            ExecError::Internal { message } => text::cat2(
                "executor internal failure: ",
                message.as_str(),
            ),
        }
    }
}

/// The program that stands beside this one, in the directory `dir`.
pub fn sibling_bin(dir: &str) -> (out: String)
    ensures
        out@ == paths::joined_path(dir@, "rdos-cli"@),
{
    paths::join_path(dir, "rdos-cli")
}

/// The program to run where none was chosen: the one beside this program where
/// it exists, otherwise whichever is found by name.
pub fn default_codex_bin(sibling: Option<String>) -> (out: String)
    ensures
        match sibling {
            Some(path) => out == path,
            None => out@ == "rdos-cli"@,
        },
{
    match sibling {
        Some(path) => path,
        None => "rdos-cli".to_owned(),
    }
}

} // verus!
