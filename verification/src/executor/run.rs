//! The executable launch state machine.

use vstd::prelude::*;
use vstd::pervasive::unreached;
use crate::command::{pipeline, CommandView, ParsedCommand};
use crate::executor::model;
use crate::executor::model::{
    asked_for, consistent, error_wiring, input_wiring, output_wiring, ActionView, ErrorView,
    OutcomeView, Phase, RunState, Wiring,
};

verus! {

/// What became of the last request.
#[derive(Debug, PartialEq, Eq)]
pub enum Outcome {
    /// It was carried out. `piped_output` says whether a process that was
    /// started handed back the reading end of its output pipe; nothing looks
    /// at it after an open.
    Success { piped_output: bool },
    /// It failed, for the reason given.
    Failure { cause: String },
}

impl View for Outcome {
    type V = OutcomeView;

    open spec fn view(&self) -> OutcomeView {
        match self {
            Outcome::Success { piped_output } => OutcomeView::Success {
                piped_output: *piped_output,
            },
            Outcome::Failure { cause } => OutcomeView::Failure { cause: cause@ },
        }
    }
}

/// Why a pipeline could not be launched.
#[derive(Debug, PartialEq, Eq)]
pub enum ExecutionError {
    /// The file that the first stage reads from could not be opened.
    InputRedirectFailed { path: String, cause: String },
    /// The file that the last stage writes to could not be opened.
    OutputRedirectFailed { path: String, cause: String },
    /// The file for the error stream of a stage could not be opened.
    ErrorRedirectFailed { path: String, cause: String },
    /// The program of a stage could not be started.
    SpawnFailed { name: String, cause: String },
}

impl View for ExecutionError {
    type V = ErrorView;

    open spec fn view(&self) -> ErrorView {
        match self {
            ExecutionError::InputRedirectFailed { path, cause } => ErrorView::InputRedirectFailed {
                path: path@,
                cause: cause@,
            },
            ExecutionError::OutputRedirectFailed {
                path,
                cause,
            } => ErrorView::OutputRedirectFailed { path: path@, cause: cause@ },
            ExecutionError::ErrorRedirectFailed { path, cause } => ErrorView::ErrorRedirectFailed {
                path: path@,
                cause: cause@,
            },
            ExecutionError::SpawnFailed { name, cause } => ErrorView::SpawnFailed {
                name: name@,
                cause: cause@,
            },
        }
    }
}

/// What the caller is asked to do next.
#[derive(Debug, PartialEq, Eq)]
pub enum Action {
    /// Open `path` for reading. The file becomes the standard input of the
    /// stage under construction.
    OpenInput { path: String },
    /// Open `path` for writing, creating it if it is missing: at its end if
    /// `append` is set, emptied if not. The file becomes the standard output
    /// of the stage under construction.
    OpenOutput { path: String, append: bool },
    /// Open `path` for writing, emptied and created if it is missing. The
    /// file becomes the standard error of the stage under construction.
    OpenError { path: String },
    /// Start the program of stage number `stage` with its arguments and with
    /// the three streams connected as given.
    Spawn { stage: usize, stdin: Wiring, stdout: Wiring, stderr: Wiring },
    /// Report `error`, kill the `kill` processes started so far and let go of
    /// them. The run has ended.
    Abort { error: ExecutionError, kill: usize },
    /// Wait until each of the `count` processes has ended. The run has ended.
    Wait { count: usize },
    /// Nothing is left to do.
    Done,
}

impl View for Action {
    type V = ActionView;

    open spec fn view(&self) -> ActionView {
        match self {
            Action::OpenInput { path } => ActionView::OpenInput { path: path@ },
            Action::OpenOutput { path, append } => ActionView::OpenOutput {
                path: path@,
                append: *append,
            },
            Action::OpenError { path } => ActionView::OpenError { path: path@ },
            Action::Spawn { stage, stdin, stdout, stderr } => ActionView::Spawn {
                stage: *stage as nat,
                stdin: *stdin,
                stdout: *stdout,
                stderr: *stderr,
            },
            Action::Abort { error, kill } => ActionView::Abort { error: error@, kill: *kill as nat },
            Action::Wait { count } => ActionView::Wait { count: *count as nat },
            Action::Done => ActionView::Done,
        }
    }
}

/// Tells where stage number `stage` reads its standard input.
pub fn input_wiring_of(command: &ParsedCommand, stage: usize, piped: bool) -> (wiring: Wiring)
    ensures
        wiring == input_wiring(command@, stage as int, piped),
{
    if piped {
        Wiring::Pipe
    } else if stage == 0 && command.stdin_redirect.is_some() {
        Wiring::File
    } else {
        Wiring::Inherit
    }
}

/// Tells where stage number `stage` of `total` writes its standard output.
pub fn output_wiring_of(command: &ParsedCommand, stage: usize, total: usize) -> (wiring: Wiring)
    ensures
        wiring == output_wiring(command@, stage as int, total as int),
{
    if total > 0 && stage < total - 1 {
        Wiring::Pipe
    } else if command.stdout_redirect.is_some() {
        Wiring::File
    } else {
        Wiring::Inherit
    }
}

/// Tells where a stage writes its standard error.
pub fn error_wiring_of(command: &ParsedCommand) -> (wiring: Wiring)
    ensures
        wiring == error_wiring(command@),
{
    if command.stderr_redirect.is_some() {
        Wiring::File
    } else {
        Wiring::Inherit
    }
}

/// The launch of one pipeline, from its first request to its end.
pub struct PipelineRun<'a> {
    commands: &'a [ParsedCommand],
    phase: Phase,
    stage: usize,
    piped: bool,
}

impl<'a> View for PipelineRun<'a> {
    type V = RunState;

    closed spec fn view(&self) -> RunState {
        RunState {
            phase: self.phase,
            stage: self.stage as nat,
            spawned: if self.phase is Finished {
                0
            } else {
                self.stage as nat
            },
            piped: self.piped,
        }
    }
}

impl<'a> PipelineRun<'a> {
    /// The pipeline that is being launched.
    pub closed spec fn commands(&self) -> Seq<CommandView> {
        pipeline(self.commands@)
    }

    #[verifier::type_invariant]
    spec fn well_formed(&self) -> bool {
        consistent(self.commands(), self@)
    }

    fn launch(commands: &'a [ParsedCommand], stage: usize, piped: bool) -> (r: (Self, Action))
        requires
            stage < commands@.len(),
        ensures
            r.0.commands() == pipeline(commands@),
            (r.0@, r.1@) == model::launch(pipeline(commands@), stage as nat, piped),
    {
        let command = &commands[stage];
        let action = Action::Spawn {
            stage,
            stdin: input_wiring_of(command, stage, piped),
            stdout: output_wiring_of(command, stage, commands.len()),
            stderr: error_wiring_of(command),
        };
        (PipelineRun { commands, phase: Phase::Spawning, stage, piped }, action)
    }

    fn settle_error(commands: &'a [ParsedCommand], stage: usize, piped: bool) -> (r: (
        Self,
        Action,
    ))
        requires
            stage < commands@.len(),
        ensures
            r.0.commands() == pipeline(commands@),
            (r.0@, r.1@) == model::settle_error(pipeline(commands@), stage as nat, piped),
    {
        match &commands[stage].stderr_redirect {
            Some(path) => (
                PipelineRun { commands, phase: Phase::OpeningError, stage, piped },
                Action::OpenError { path: path.clone() },
            ),
            None => Self::launch(commands, stage, piped),
        }
    }

    fn settle_output(commands: &'a [ParsedCommand], stage: usize, piped: bool) -> (r: (
        Self,
        Action,
    ))
        requires
            stage < commands@.len(),
        ensures
            r.0.commands() == pipeline(commands@),
            (r.0@, r.1@) == model::settle_output(pipeline(commands@), stage as nat, piped),
    {
        match &commands[stage].stdout_redirect {
            Some((path, append)) if stage + 1 >= commands.len() => (
                PipelineRun { commands, phase: Phase::OpeningOutput, stage, piped },
                Action::OpenOutput { path: path.clone(), append: *append },
            ),
            _ => Self::settle_error(commands, stage, piped),
        }
    }

    fn settle_input(commands: &'a [ParsedCommand], stage: usize, piped: bool) -> (r: (
        Self,
        Action,
    ))
        requires
            stage < commands@.len(),
        ensures
            r.0.commands() == pipeline(commands@),
            (r.0@, r.1@) == model::settle_input(pipeline(commands@), stage as nat, piped),
    {
        match &commands[stage].stdin_redirect {
            Some(path) if stage == 0 && !piped => (
                PipelineRun { commands, phase: Phase::OpeningInput, stage, piped },
                Action::OpenInput { path: path.clone() },
            ),
            _ => Self::settle_output(commands, stage, piped),
        }
    }

    /// Begins the launch of `commands` and tells what to do first.
    pub fn start(commands: &'a [ParsedCommand]) -> (r: (Self, Action))
        ensures
            r.0.commands() == pipeline(commands@),
            (r.0@, r.1@) == model::start(pipeline(commands@)),
            consistent(r.0.commands(), r.0@),
            asked_for(r.0.commands(), r.0@, r.1@),
    {
        if commands.len() == 0 {
            (
                PipelineRun { commands, phase: Phase::Finished, stage: 0, piped: false },
                Action::Wait { count: 0 },
            )
        } else {
            Self::settle_input(commands, 0, false)
        }
    }

    /// Tells whether the run has ended.
    pub fn is_finished(&self) -> (b: bool)
        ensures
            b == (self@.phase is Finished),
    {
        match self.phase {
            Phase::Finished => true,
            _ => false,
        }
    }

    /// Takes the outcome of the last request and tells what to do next.
    pub fn step(&mut self, outcome: Outcome) -> (action: Action)
        ensures
            final(self).commands() == old(self).commands(),
            (final(self)@, action@) == model::step(old(self).commands(), old(self)@, outcome@),
            consistent(final(self).commands(), final(self)@),
            asked_for(final(self).commands(), final(self)@, action@),
    {
        proof {
            use_type_invariant(&*self);
        }
        let commands = self.commands;
        let stage = self.stage;
        let piped = self.piped;
        let phase = self.phase;
        if let Phase::Finished = phase {
            return Action::Done;
        }
        let command = &commands[stage];
        match outcome {
            Outcome::Failure { cause } => {
                let error = match phase {
                    Phase::OpeningInput => match &command.stdin_redirect {
                        Some(path) => ExecutionError::InputRedirectFailed {
                            path: path.clone(),
                            cause,
                        },
                        None => unreached(),
                    },
                    Phase::OpeningOutput => match &command.stdout_redirect {
                        Some((path, _)) => ExecutionError::OutputRedirectFailed {
                            path: path.clone(),
                            cause,
                        },
                        None => unreached(),
                    },
                    Phase::OpeningError => match &command.stderr_redirect {
                        Some(path) => ExecutionError::ErrorRedirectFailed {
                            path: path.clone(),
                            cause,
                        },
                        None => unreached(),
                    },
                    _ => ExecutionError::SpawnFailed { name: command.name.clone(), cause },
                };
                *self = PipelineRun { commands, phase: Phase::Finished, stage, piped: false };
                Action::Abort { error, kill: stage }
            },
            Outcome::Success { piped_output } => {
                let (next, action) = match phase {
                    Phase::OpeningInput => Self::settle_output(commands, stage, piped),
                    Phase::OpeningOutput => Self::settle_error(commands, stage, piped),
                    Phase::OpeningError => Self::launch(commands, stage, piped),
                    _ => if stage + 1 >= commands.len() {
                        (
                            PipelineRun { commands, phase: Phase::Finished, stage, piped: false },
                            Action::Wait { count: stage + 1 },
                        )
                    } else {
                        Self::settle_input(commands, stage + 1, piped_output)
                    },
                };
                *self = next;
                action
            },
        }
    }
}

} // verus!
