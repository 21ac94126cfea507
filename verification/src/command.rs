//! The commands of a pipeline, as the parser hands them to the executor.

use vstd::prelude::*;

verus! {

/// The three standard streams of a process.
#[derive(Clone, Copy, Debug, PartialEq, Eq, Structural)]
pub enum Stream {
    /// Standard input.
    Input,
    /// Standard output.
    Output,
    /// Standard error.
    Error,
}

/// The four redirection operators.
#[derive(Clone, Copy, Debug, PartialEq, Eq, Structural)]
pub enum RedirectOp {
    /// `<`: standard input is read from a file.
    Input,
    /// `>`: standard output goes to a file that is emptied first.
    Output,
    /// `>>`: standard output is added to the end of a file.
    Append,
    /// `2>`: standard error goes to a file that is emptied first.
    Error,
}

impl RedirectOp {
    /// The stream that the operator redirects.
    pub open spec fn stream(self) -> Stream {
        match self {
            RedirectOp::Input => Stream::Input,
            RedirectOp::Output => Stream::Output,
            RedirectOp::Append => Stream::Output,
            RedirectOp::Error => Stream::Error,
        }
    }

    /// Whether the file is opened for appending rather than emptied.
    pub open spec fn appends(self) -> bool {
        self == RedirectOp::Append
    }
}

/// Why a line could not be parsed.
#[derive(Clone, Copy, Debug, PartialEq, Eq, Structural)]
pub enum ParseError {
    /// A stage of the pipeline holds nothing but blanks.
    EmptyPipelineStage,
    /// A command holds no word at all.
    EmptyCommand,
    /// The given operator is the last word of its command, so no path follows it.
    MissingRedirectTarget(RedirectOp),
}

/// One stage of a pipeline.
#[derive(Clone, Debug, PartialEq, Eq)]
pub struct ParsedCommand {
    /// The name of the program, or of the built-in command.
    pub name: String,
    /// The arguments, in the order in which they were written.
    pub args: Vec<String>,
    /// The file that standard input is read from.
    pub stdin_redirect: Option<String>,
    /// The file that standard output is written to, and whether it is appended to.
    pub stdout_redirect: Option<(String, bool)>,
    /// The file that standard error is written to.
    pub stderr_redirect: Option<String>,
}

/// The mathematical content of a [`ParsedCommand`].
pub struct CommandView {
    pub name: Seq<char>,
    pub args: Seq<Seq<char>>,
    pub stdin_redirect: Option<Seq<char>>,
    pub stdout_redirect: Option<(Seq<char>, bool)>,
    pub stderr_redirect: Option<Seq<char>>,
}

impl CommandView {
    /// Whether the command has a name.
    pub open spec fn well_formed(self) -> bool {
        self.name.len() > 0
    }
}

/// Whether `commands` can be launched as a pipeline: it has a stage, and
/// every stage has a name.
pub open spec fn well_formed_pipeline(commands: Seq<CommandView>) -> bool {
    &&& commands.len() >= 1
    &&& forall|i: int| 0 <= i < commands.len() ==> (#[trigger] commands[i]).well_formed()
}

/// What a sequence of strings holds, string by string.
pub open spec fn strings(v: Seq<String>) -> Seq<Seq<char>> {
    Seq::new(v.len(), |i: int| v[i]@)
}

/// What an optional string holds.
pub open spec fn optional_string(s: Option<String>) -> Option<Seq<char>> {
    match s {
        Some(s) => Some(s@),
        None => None,
    }
}

/// What an optional path with its mode holds.
pub open spec fn optional_target(t: Option<(String, bool)>) -> Option<(Seq<char>, bool)> {
    match t {
        Some((path, append)) => Some((path@, append)),
        None => None,
    }
}

impl View for ParsedCommand {
    type V = CommandView;

    open spec fn view(&self) -> CommandView {
        CommandView {
            name: self.name@,
            args: strings(self.args@),
            stdin_redirect: optional_string(self.stdin_redirect),
            stdout_redirect: optional_target(self.stdout_redirect),
            stderr_redirect: optional_string(self.stderr_redirect),
        }
    }
}

/// What a pipeline holds, stage by stage.
pub open spec fn pipeline(commands: Seq<ParsedCommand>) -> Seq<CommandView> {
    Seq::new(commands.len(), |i: int| commands[i]@)
}

} // verus!
