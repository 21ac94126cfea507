//! The rules of launching a pipeline, as a state machine over mathematical values.

use vstd::prelude::*;
use crate::command::CommandView;

verus! {

/// What a standard stream of a new process is connected to.
#[derive(Clone, Copy, Debug, PartialEq, Eq, Structural)]
pub enum Wiring {
    /// The stream of the interpreter itself.
    Inherit,
    /// The pipe between this stage and its neighbour.
    Pipe,
    /// The file that was opened for this stream of this stage.
    File,
}

/// Where stage number `stage` reads its standard input. A pipe handed over by the
/// stage before it comes first. Without one, only the first stage looks at
/// its own redirection; any other stage inherits.
pub open spec fn input_wiring(command: CommandView, stage: int, piped: bool) -> Wiring {
    if piped {
        Wiring::Pipe
    } else if stage == 0 && command.stdin_redirect is Some {
        Wiring::File
    } else {
        Wiring::Inherit
    }
}

/// Where stage number `stage` of `total` writes its standard output. Every
/// stage but the last writes into the pipe to the next one; only the last
/// looks at its own redirection.
pub open spec fn output_wiring(command: CommandView, stage: int, total: int) -> Wiring {
    if stage < total - 1 {
        Wiring::Pipe
    } else if command.stdout_redirect is Some {
        Wiring::File
    } else {
        Wiring::Inherit
    }
}

/// Where a stage writes its standard error, wherever it stands in the pipeline.
pub open spec fn error_wiring(command: CommandView) -> Wiring {
    if command.stderr_redirect is Some {
        Wiring::File
    } else {
        Wiring::Inherit
    }
}

/// The request whose outcome a run is waiting for.
#[derive(Clone, Copy, Debug, PartialEq, Eq, Structural)]
pub enum Phase {
    /// The file for standard input is being opened.
    OpeningInput,
    /// The file for standard output is being opened.
    OpeningOutput,
    /// The file for standard error is being opened.
    OpeningError,
    /// The process is being started.
    Spawning,
    /// Nothing: the run has ended.
    Finished,
}

/// The state of a run.
pub struct RunState {
    /// What the run is waiting for.
    pub phase: Phase,
    /// The stage under construction.
    pub stage: nat,
    /// How many processes of this pipeline the caller holds.
    pub spawned: nat,
    /// Whether the stage before handed over the reading end of its output pipe.
    pub piped: bool,
}

/// What became of a request.
pub enum OutcomeView {
    /// It was carried out. `piped_output` says whether a process that was
    /// started handed back the reading end of its output pipe; nothing looks
    /// at it after an open.
    Success { piped_output: bool },
    /// It failed, for the reason given.
    Failure { cause: Seq<char> },
}

/// Why a pipeline could not be launched.
pub enum ErrorView {
    /// The file at `path`, which the first stage reads from, could not be opened.
    InputRedirectFailed { path: Seq<char>, cause: Seq<char> },
    /// The file at `path`, which the last stage writes to, could not be opened.
    OutputRedirectFailed { path: Seq<char>, cause: Seq<char> },
    /// The file at `path`, for the error stream of a stage, could not be opened.
    ErrorRedirectFailed { path: Seq<char>, cause: Seq<char> },
    /// The program `name` could not be started.
    SpawnFailed { name: Seq<char>, cause: Seq<char> },
}

/// What the caller is asked to do next.
pub enum ActionView {
    /// Open `path` for reading, as standard input of the stage under construction.
    OpenInput { path: Seq<char> },
    /// Open `path` for writing, at its end if `append` is set and emptied if
    /// not, as standard output of the stage under construction.
    OpenOutput { path: Seq<char>, append: bool },
    /// Open `path` for writing, emptied, as standard error of the stage
    /// under construction.
    OpenError { path: Seq<char> },
    /// Start the program of stage number `stage` with its streams connected as given.
    Spawn { stage: nat, stdin: Wiring, stdout: Wiring, stderr: Wiring },
    /// Report `error` and kill the `kill` processes started so far.
    Abort { error: ErrorView, kill: nat },
    /// Wait until each of the `count` processes has ended.
    Wait { count: nat },
    /// Nothing is left to do.
    Done,
}

/// A run that waits for the outcome of `phase` at stage `stage`.
pub open spec fn waiting(phase: Phase, stage: nat, piped: bool) -> RunState {
    RunState { phase, stage, spawned: stage, piped }
}

/// A run that has ended.
pub open spec fn finished(stage: nat) -> RunState {
    RunState { phase: Phase::Finished, stage, spawned: 0, piped: false }
}

/// All three streams of the stage are settled: the process is started.
pub open spec fn launch(commands: Seq<CommandView>, stage: nat, piped: bool) -> (
    RunState,
    ActionView,
) {
    let command = commands[stage as int];
    (
        waiting(Phase::Spawning, stage, piped),
        ActionView::Spawn {
            stage,
            stdin: input_wiring(command, stage as int, piped),
            stdout: output_wiring(command, stage as int, commands.len() as int),
            stderr: error_wiring(command),
        },
    )
}

/// Standard error is settled next: its file is opened if it has one.
pub open spec fn settle_error(commands: Seq<CommandView>, stage: nat, piped: bool) -> (
    RunState,
    ActionView,
) {
    match commands[stage as int].stderr_redirect {
        Some(path) => (waiting(Phase::OpeningError, stage, piped), ActionView::OpenError { path }),
        None => launch(commands, stage, piped),
    }
}

/// Standard output is settled next: its file is opened if this is the last
/// stage and it has one.
pub open spec fn settle_output(commands: Seq<CommandView>, stage: nat, piped: bool) -> (
    RunState,
    ActionView,
) {
    match commands[stage as int].stdout_redirect {
        Some((path, append)) if stage + 1 >= commands.len() => (
            waiting(Phase::OpeningOutput, stage, piped),
            ActionView::OpenOutput { path, append },
        ),
        _ => settle_error(commands, stage, piped),
    }
}

/// A new stage begins with its standard input: its file is opened if this is
/// the first stage, no pipe was handed over, and it has one.
pub open spec fn settle_input(commands: Seq<CommandView>, stage: nat, piped: bool) -> (
    RunState,
    ActionView,
) {
    match commands[stage as int].stdin_redirect {
        Some(path) if stage == 0 && !piped => (
            waiting(Phase::OpeningInput, stage, piped),
            ActionView::OpenInput { path },
        ),
        _ => settle_output(commands, stage, piped),
    }
}

/// The first request of a run. A pipeline without stages has nothing to
/// launch and nothing to wait for.
pub open spec fn start(commands: Seq<CommandView>) -> (RunState, ActionView) {
    if commands.len() == 0 {
        (finished(0), ActionView::Wait { count: 0 })
    } else {
        settle_input(commands, 0, false)
    }
}

/// The run ends on a failure: every process started so far is to be killed.
pub open spec fn abort(s: RunState, error: ErrorView) -> (RunState, ActionView) {
    (finished(s.stage), ActionView::Abort { error, kill: s.spawned })
}

/// The error that a failure means in the state `s`.
pub open spec fn failure(commands: Seq<CommandView>, s: RunState, cause: Seq<char>) -> ErrorView {
    let command = commands[s.stage as int];
    match s.phase {
        Phase::OpeningInput => ErrorView::InputRedirectFailed {
            path: command.stdin_redirect->0,
            cause,
        },
        Phase::OpeningOutput => ErrorView::OutputRedirectFailed {
            path: (command.stdout_redirect->0).0,
            cause,
        },
        Phase::OpeningError => ErrorView::ErrorRedirectFailed {
            path: command.stderr_redirect->0,
            cause,
        },
        _ => ErrorView::SpawnFailed { name: command.name, cause },
    }
}

/// What follows when the request that `s` waits for was carried out.
pub open spec fn proceed(commands: Seq<CommandView>, s: RunState, piped_output: bool) -> (
    RunState,
    ActionView,
) {
    match s.phase {
        Phase::OpeningInput => settle_output(commands, s.stage, s.piped),
        Phase::OpeningOutput => settle_error(commands, s.stage, s.piped),
        Phase::OpeningError => launch(commands, s.stage, s.piped),
        Phase::Spawning => if s.stage + 1 >= commands.len() {
            (finished(s.stage), ActionView::Wait { count: s.spawned + 1 })
        } else {
            settle_input(commands, s.stage + 1, piped_output)
        },
        Phase::Finished => (s, ActionView::Done),
    }
}

/// The next state and the next request, given the outcome of the last one.
/// A run that has ended stays as it is and asks for nothing.
pub open spec fn step(commands: Seq<CommandView>, s: RunState, outcome: OutcomeView) -> (
    RunState,
    ActionView,
) {
    if s.phase is Finished {
        (s, ActionView::Done)
    } else {
        match outcome {
            OutcomeView::Success { piped_output } => proceed(commands, s, piped_output),
            OutcomeView::Failure { cause } => abort(s, failure(commands, s, cause)),
        }
    }
}

/// What holds of every state that a run of `commands` can be in. While a
/// stage is under construction, every stage before it has been started and
/// none has been given up; a file is only waited for where the rules ask for
/// one. After the end the caller holds no process.
pub open spec fn consistent(commands: Seq<CommandView>, s: RunState) -> bool {
    if s.phase is Finished {
        s.spawned == 0
    } else {
        let command = commands[s.stage as int];
        &&& s.stage < commands.len()
        &&& s.spawned == s.stage
        &&& s.phase is OpeningInput ==> input_wiring(command, s.stage as int, s.piped) is File
        &&& s.phase is OpeningOutput ==> output_wiring(
            command,
            s.stage as int,
            commands.len() as int,
        ) is File
        &&& s.phase is OpeningError ==> error_wiring(command) is File
    }
}

/// Whether `action` is the request that a run in state `s` waits for.
pub open spec fn asked_for(commands: Seq<CommandView>, s: RunState, action: ActionView) -> bool {
    let command = commands[s.stage as int];
    match s.phase {
        Phase::OpeningInput => action == (ActionView::OpenInput {
            path: command.stdin_redirect->0,
        }),
        Phase::OpeningOutput => action == (ActionView::OpenOutput {
            path: (command.stdout_redirect->0).0,
            append: (command.stdout_redirect->0).1,
        }),
        Phase::OpeningError => action == (ActionView::OpenError {
            path: command.stderr_redirect->0,
        }),
        Phase::Spawning => action == (ActionView::Spawn {
            stage: s.stage,
            stdin: input_wiring(command, s.stage as int, s.piped),
            stdout: output_wiring(command, s.stage as int, commands.len() as int),
            stderr: error_wiring(command),
        }),
        Phase::Finished => action is Abort || action is Wait || action is Done,
    }
}

} // verus!
