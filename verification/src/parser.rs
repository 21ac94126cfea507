//! From a line of text to a pipeline of commands.
//!
//! A line falls into stages at every `|`. The words of a stage are its
//! tokens. The first token names the command. Each later token has one of
//! three parts: it is a redirection operator, the path that follows such an
//! operator, or an argument. Which part it has depends only on the tokens to
//! its left, see [`role`].

use vstd::prelude::*;
use crate::command::{
    optional_string, optional_target, pipeline, strings, well_formed_pipeline, CommandView,
    ParseError, ParsedCommand, RedirectOp, Stream,
};
use crate::parser::laws::{
    lemma_argument_step, lemma_command_is_named, lemma_first_failure_decides,
    lemma_redirection_step,
};
use crate::text::laws::lemma_split_has_a_piece;
use crate::text::{
    same_text, split, split_text, texts, trim, trim_text, words, words_of, Delimiter,
};

pub mod laws;

verus! {

/// The operator that `token` spells, if it spells one.
pub open spec fn operator(token: Seq<char>) -> Option<RedirectOp> {
    if token == "<"@ {
        Some(RedirectOp::Input)
    } else if token == ">"@ {
        Some(RedirectOp::Output)
    } else if token == ">>"@ {
        Some(RedirectOp::Append)
    } else if token == "2>"@ {
        Some(RedirectOp::Error)
    } else {
        None
    }
}

/// The part that a token plays in its command.
pub enum Role {
    /// The first token: the name of the command.
    Name,
    /// A positional argument.
    Argument,
    /// A redirection operator, which claims the token after it.
    Operator(RedirectOp),
    /// The path claimed by the operator just before it.
    Target(RedirectOp),
}

/// The part of the token at position `i`. A token that follows an operator is
/// that operator's path, whatever it spells; any other token after the name
/// is an operator if it spells one and an argument if it does not.
pub open spec fn role(tokens: Seq<Seq<char>>, i: int) -> Role
    decreases i,
{
    if i <= 0 {
        Role::Name
    } else {
        match role(tokens, i - 1) {
            Role::Operator(op) => Role::Target(op),
            _ => match operator(tokens[i]) {
                Some(op) => Role::Operator(op),
                None => Role::Argument,
            },
        }
    }
}

/// The arguments among the first `n` tokens, in the order of the tokens.
pub open spec fn arguments(tokens: Seq<Seq<char>>, n: int) -> Seq<Seq<char>>
    decreases n,
{
    if n <= 0 {
        Seq::empty()
    } else if role(tokens, n - 1) is Argument {
        arguments(tokens, n - 1).push(tokens[n - 1])
    } else {
        arguments(tokens, n - 1)
    }
}

/// The last redirection of `stream` among the first `n` tokens: its operator
/// and its path. A later redirection of a stream replaces an earlier one.
pub open spec fn redirection(tokens: Seq<Seq<char>>, n: int, stream: Stream) -> Option<
    (RedirectOp, Seq<char>),
>
    decreases n,
{
    if n <= 0 {
        None
    } else {
        match role(tokens, n - 1) {
            Role::Target(op) if op.stream() == stream => Some((op, tokens[n - 1])),
            _ => redirection(tokens, n - 1, stream),
        }
    }
}

/// The path of a redirection.
pub open spec fn path_of(r: Option<(RedirectOp, Seq<char>)>) -> Option<Seq<char>> {
    match r {
        Some((_, path)) => Some(path),
        None => None,
    }
}

/// The path of a redirection of standard output, and whether it is appended to.
pub open spec fn path_and_mode_of(r: Option<(RedirectOp, Seq<char>)>) -> Option<
    (Seq<char>, bool),
> {
    match r {
        Some((op, path)) => Some((path, op.appends())),
        None => None,
    }
}

/// The command that a sequence of tokens spells.
///
/// No token at all is an empty command. An operator in the last place has no
/// path. Every other sequence is a command.
pub open spec fn parse_tokens(tokens: Seq<Seq<char>>) -> Result<CommandView, ParseError> {
    let n = tokens.len() as int;
    if n == 0 {
        Err(ParseError::EmptyCommand)
    } else if let Role::Operator(op) = role(tokens, n - 1) {
        Err(ParseError::MissingRedirectTarget(op))
    } else {
        Ok(
            CommandView {
                name: tokens[0],
                args: arguments(tokens, n),
                stdin_redirect: path_of(redirection(tokens, n, Stream::Input)),
                stdout_redirect: path_and_mode_of(redirection(tokens, n, Stream::Output)),
                stderr_redirect: path_of(redirection(tokens, n, Stream::Error)),
            },
        )
    }
}

/// The command that a segment of a line spells.
pub open spec fn parse_command(segment: Seq<char>) -> Result<CommandView, ParseError> {
    parse_tokens(words(segment))
}

/// The command that one stage of a pipeline spells. A stage that holds
/// nothing but blanks is an error of the pipeline; any other stage is parsed
/// as a command, without the blanks around it.
pub open spec fn parse_stage(segment: Seq<char>) -> Result<CommandView, ParseError> {
    let trimmed = trim(segment);
    if trimmed.len() == 0 {
        Err(ParseError::EmptyPipelineStage)
    } else {
        parse_command(trimmed)
    }
}

/// The commands that the first `n` segments spell, in order, or the error of
/// the first segment among them that spells none.
pub open spec fn parse_stages(segments: Seq<Seq<char>>, n: int) -> Result<
    Seq<CommandView>,
    ParseError,
>
    decreases n,
{
    if n <= 0 {
        Ok(Seq::empty())
    } else {
        match parse_stages(segments, n - 1) {
            Err(e) => Err(e),
            Ok(commands) => match parse_stage(segments[n - 1]) {
                Ok(command) => Ok(commands.push(command)),
                Err(e) => Err(e),
            },
        }
    }
}

/// The pipeline that a line spells: one command for each of the segments
/// between its pipes.
pub open spec fn parse_line(line: Seq<char>) -> Result<Seq<CommandView>, ParseError> {
    let segments = split(line, Delimiter::Pipe);
    parse_stages(segments, segments.len() as int)
}

/// What the parser returns for one command, as a mathematical value.
pub open spec fn command_outcome(result: Result<ParsedCommand, ParseError>) -> Result<
    CommandView,
    ParseError,
> {
    match result {
        Ok(command) => Ok(command@),
        Err(e) => Err(e),
    }
}

/// What the parser returns for a line, as a mathematical value.
pub open spec fn pipeline_outcome(result: Result<Vec<ParsedCommand>, ParseError>) -> Result<
    Seq<CommandView>,
    ParseError,
> {
    match result {
        Ok(commands) => Ok(pipeline(commands@)),
        Err(e) => Err(e),
    }
}

/// Tells which operator `token` spells, if it spells one.
pub fn operator_of(token: &str) -> (op: Option<RedirectOp>)
    ensures
        op == operator(token@),
{
    if same_text(token, "<") {
        Some(RedirectOp::Input)
    } else if same_text(token, ">") {
        Some(RedirectOp::Output)
    } else if same_text(token, ">>") {
        Some(RedirectOp::Append)
    } else if same_text(token, "2>") {
        Some(RedirectOp::Error)
    } else {
        None
    }
}

/// Builds the command that `tokens` spell.
pub fn parse_words(tokens: &[&str]) -> (result: Result<ParsedCommand, ParseError>)
    ensures
        command_outcome(result) == parse_tokens(texts(tokens@)),
{
    let ghost spelled = texts(tokens@);
    let n = tokens.len();
    if n == 0 {
        return Err(ParseError::EmptyCommand);
    }
    let name = tokens[0].to_owned();
    let mut args: Vec<String> = Vec::new();
    let mut stdin_redirect: Option<String> = None;
    let mut stdout_redirect: Option<(String, bool)> = None;
    let mut stderr_redirect: Option<String> = None;
    let mut i: usize = 1;
    assert(strings(args@) =~= arguments(spelled, 1)) by {
        assert(arguments(spelled, 0) =~= Seq::<Seq<char>>::empty());
    }
    assert(redirection(spelled, 0, Stream::Input) is None);
    assert(redirection(spelled, 0, Stream::Output) is None);
    assert(redirection(spelled, 0, Stream::Error) is None);
    while i < n
        invariant
            n == tokens.len(),
            spelled == texts(tokens@),
            1 <= i <= n,
            !(role(spelled, i - 1) is Operator),
            strings(args@) == arguments(spelled, i as int),
            optional_string(stdin_redirect) == path_of(
                redirection(spelled, i as int, Stream::Input),
            ),
            optional_target(stdout_redirect) == path_and_mode_of(
                redirection(spelled, i as int, Stream::Output),
            ),
            optional_string(stderr_redirect) == path_of(
                redirection(spelled, i as int, Stream::Error),
            ),
        decreases n - i,
    {
        let token = tokens[i];
        let ghost before = strings(args@);
        assert(spelled[i as int] == token@);
        match operator_of(token) {
            None => {
                args.push(token.to_owned());
                assert(strings(args@) =~= before.push(token@));
                proof {
                    lemma_argument_step(spelled, i as int);
                }
                i += 1;
            },
            Some(op) => {
                assert(role(spelled, i as int) == Role::Operator(op));
                if i + 1 < n {
                    let path = tokens[i + 1].to_owned();
                    assert(spelled[i + 1] == path@);
                    proof {
                        lemma_redirection_step(spelled, i as int, op);
                    }
                    match op {
                        RedirectOp::Input => {
                            stdin_redirect = Some(path);
                        },
                        RedirectOp::Output => {
                            stdout_redirect = Some((path, false));
                        },
                        RedirectOp::Append => {
                            stdout_redirect = Some((path, true));
                        },
                        RedirectOp::Error => {
                            stderr_redirect = Some(path);
                        },
                    }
                    i += 2;
                } else {
                    return Err(ParseError::MissingRedirectTarget(op));
                }
            },
        }
    }
    Ok(ParsedCommand { name, args, stdin_redirect, stdout_redirect, stderr_redirect })
}

/// Parses one command, without pipes, into its name, its arguments and its
/// redirections.
pub fn parse_single_command(command_segment: &str) -> (result: Result<ParsedCommand, ParseError>)
    ensures
        command_outcome(result) == parse_command(command_segment@),
        result matches Ok(command) ==> command@.well_formed(),
{
    let tokens = words_of(command_segment);
    proof {
        if parse_command(command_segment@) is Ok {
            lemma_command_is_named(command_segment@);
        }
    }
    parse_words(&tokens)
}

/// Parses a whole line: cuts it at every pipe and parses each segment as a
/// command. The first segment that cannot be parsed decides the error.
pub fn parse_pipeline_commands(command_line: &str) -> (result: Result<
    Vec<ParsedCommand>,
    ParseError,
>)
    ensures
        pipeline_outcome(result) == parse_line(command_line@),
        result matches Ok(commands) ==> well_formed_pipeline(pipeline(commands@)),
{
    let segments = split_text(command_line, Delimiter::Pipe);
    proof {
        lemma_split_has_a_piece(command_line@, Delimiter::Pipe);
    }
    let ghost spelled = texts(segments@);
    let mut commands: Vec<ParsedCommand> = Vec::new();
    let mut k: usize = 0;
    assert(pipeline(commands@) =~= Seq::<CommandView>::empty());
    while k < segments.len()
        invariant
            spelled == texts(segments@),
            spelled == split(command_line@, Delimiter::Pipe),
            k <= segments.len(),
            segments.len() >= 1,
            pipeline(commands@).len() == k,
            forall|i: int| 0 <= i < k ==> (#[trigger] pipeline(commands@)[i]).well_formed(),
            parse_stages(spelled, k as int) == Ok::<Seq<CommandView>, ParseError>(
                pipeline(commands@),
            ),
        decreases segments.len() - k,
    {
        let ghost before = pipeline(commands@);
        let trimmed = trim_text(segments[k]);
        assert(spelled[k as int] == segments[k as int]@);
        if trimmed.is_empty() {
            proof {
                lemma_first_failure_decides(spelled, k + 1, segments.len() as int);
            }
            return Err(ParseError::EmptyPipelineStage);
        }
        match parse_single_command(trimmed) {
            Ok(command) => {
                commands.push(command);
                assert(pipeline(commands@) =~= before.push(command@));
            },
            Err(e) => {
                proof {
                    lemma_first_failure_decides(spelled, k + 1, segments.len() as int);
                }
                return Err(e);
            },
        }
        k += 1;
    }
    Ok(commands)
}

} // verus!
