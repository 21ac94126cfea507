//! The commands that the interpreter carries out itself.
//!
//! A pipeline of exactly one stage whose name is `exit`, `cd` or `pwd` never
//! reaches the executor. In a longer pipeline these names are programs like
//! any other.

use vstd::prelude::*;
use crate::command::{pipeline, CommandView, ParsedCommand};
use crate::text::same_text;

verus! {

/// The built-in commands.
#[derive(Clone, Copy, Debug, PartialEq, Eq, Structural)]
pub enum Builtin {
    /// `exit`: leave the interpreter.
    Exit,
    /// `cd`: change the working directory.
    ChangeDirectory,
    /// `pwd`: print the working directory.
    PrintWorkingDirectory,
}

/// The built-in command that `name` names, if it names one.
pub open spec fn builtin_named(name: Seq<char>) -> Option<Builtin> {
    if name == "exit"@ {
        Some(Builtin::Exit)
    } else if name == "cd"@ {
        Some(Builtin::ChangeDirectory)
    } else if name == "pwd"@ {
        Some(Builtin::PrintWorkingDirectory)
    } else {
        None
    }
}

/// The built-in command that takes the place of running `commands`, if one does.
pub open spec fn intercepted(commands: Seq<CommandView>) -> Option<Builtin> {
    if commands.len() == 1 {
        builtin_named(commands[0].name)
    } else {
        None
    }
}

/// Tells which built-in command takes the place of running `commands`, if
/// one does.
pub fn intercept(commands: &[ParsedCommand]) -> (builtin: Option<Builtin>)
    ensures
        builtin == intercepted(pipeline(commands@)),
{
    if commands.len() != 1 {
        return None;
    }
    let name = commands[0].name.as_str();
    if same_text(name, "exit") {
        Some(Builtin::Exit)
    } else if same_text(name, "cd") {
        Some(Builtin::ChangeDirectory)
    } else if same_text(name, "pwd") {
        Some(Builtin::PrintWorkingDirectory)
    } else {
        None
    }
}

/// What `cd` was asked to do.
#[derive(Debug, PartialEq, Eq)]
pub enum Destination {
    /// No directory was given.
    Missing,
    /// More than one directory was given.
    TooMany,
    /// The one directory that was given.
    Directory(String),
}

/// The mathematical content of a [`Destination`].
pub enum DestinationView {
    Missing,
    TooMany,
    Directory(Seq<char>),
}

impl View for Destination {
    type V = DestinationView;

    open spec fn view(&self) -> DestinationView {
        match self {
            Destination::Missing => DestinationView::Missing,
            Destination::TooMany => DestinationView::TooMany,
            Destination::Directory(path) => DestinationView::Directory(path@),
        }
    }
}

/// The directory that a `cd` with the arguments `args` asks for. It takes
/// exactly one.
pub open spec fn destination(args: Seq<Seq<char>>) -> DestinationView {
    if args.len() == 0 {
        DestinationView::Missing
    } else if args.len() > 1 {
        DestinationView::TooMany
    } else {
        DestinationView::Directory(args[0])
    }
}

/// Tells which directory the `cd` command `command` asks for.
pub fn destination_of(command: &ParsedCommand) -> (wanted: Destination)
    ensures
        wanted@ == destination(command@.args),
{
    if command.args.len() == 0 {
        Destination::Missing
    } else if command.args.len() > 1 {
        Destination::TooMany
    } else {
        Destination::Directory(command.args[0].clone())
    }
}

} // verus!
