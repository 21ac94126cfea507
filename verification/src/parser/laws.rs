//! What holds of every line and of every command that the parser accepts.

use vstd::prelude::*;
use crate::command::{CommandView, ParseError, ParsedCommand, RedirectOp, Stream};
use crate::parser::{
    arguments, parse_command, parse_line, parse_stage, parse_stages, parse_tokens,
    pipeline_outcome, redirection, role, Role,
};
use crate::text::laws::{
    lemma_no_word_iff_blank, lemma_split_has_a_piece, lemma_split_without_delimiter,
    lemma_trim_empty_iff_blank, lemma_trim_keeps_words, lemma_words_are_solid,
};
use crate::text::{all_blank, is_blank, split, words, Delimiter};

verus! {

/// The places of the arguments among the first `n` tokens, in rising order.
pub open spec fn argument_places(tokens: Seq<Seq<char>>, n: int) -> Seq<int>
    decreases n,
{
    if n <= 0 {
        Seq::empty()
    } else if role(tokens, n - 1) is Argument {
        argument_places(tokens, n - 1).push(n - 1)
    } else {
        argument_places(tokens, n - 1)
    }
}

/// How many of the first `n` tokens are operators.
pub open spec fn operator_count(tokens: Seq<Seq<char>>, n: int) -> nat
    decreases n,
{
    if n <= 0 {
        0
    } else if role(tokens, n - 1) is Operator {
        operator_count(tokens, n - 1) + 1
    } else {
        operator_count(tokens, n - 1)
    }
}

/// Whether the token at place `i` stands where its part belongs: the name in
/// the first place and nowhere else, an operator right before its path, a
/// path right after its operator.
pub open spec fn in_its_place(tokens: Seq<Seq<char>>, i: int) -> bool {
    match role(tokens, i) {
        Role::Name => i == 0,
        Role::Argument => i >= 1,
        Role::Operator(op) => i >= 1 && i + 1 < tokens.len() && role(tokens, i + 1)
            == Role::Target(op),
        Role::Target(op) => i >= 2 && role(tokens, i - 1) == Role::Operator(op),
    }
}

/// What it means that `args` are the tokens at `places`, that these are
/// places of arguments, listed in rising order, and that no such place is
/// left out.
pub open spec fn arguments_in_order(
    tokens: Seq<Seq<char>>,
    args: Seq<Seq<char>>,
    places: Seq<int>,
) -> bool {
    &&& args.len() == places.len()
    &&& forall|k: int|
        0 <= k < places.len() ==> 0 < #[trigger] places[k] < tokens.len() && role(
            tokens,
            places[k],
        ) is Argument && args[k] == tokens[places[k]]
    &&& forall|j: int, k: int| 0 <= j < k < places.len() ==> places[j] < places[k]
    &&& forall|i: int|
        0 <= i < tokens.len() && #[trigger] role(tokens, i) is Argument ==> places.contains(i)
}

/// Whether the token at place `k` is the path of a redirection of `stream`.
pub open spec fn redirects(tokens: Seq<Seq<char>>, k: int, stream: Stream) -> bool {
    match role(tokens, k) {
        Role::Target(op) => op.stream() == stream,
        _ => false,
    }
}

/// The place of the first of the first `n` segments that is no command, or
/// `n` if each of them is one.
pub open spec fn first_failure(segments: Seq<Seq<char>>, n: int) -> int
    decreases n,
{
    if n <= 0 {
        0
    } else if first_failure(segments, n - 1) < n - 1 {
        first_failure(segments, n - 1)
    } else if parse_stage(segments[n - 1]) is Err {
        n - 1
    } else {
        n
    }
}

/// The tokens of a command that the parser accepts fall into the name, the
/// arguments and the pairs of an operator and its path: each token has one
/// part, every operator is followed by its path and every path follows its
/// operator, so that the name, the arguments and two tokens for each
/// operator make up all the tokens. The arguments of the command are the
/// tokens in the places of arguments, in the order of the tokens.
pub proof fn lemma_tokens_partitioned(tokens: Seq<Seq<char>>)
    requires
        parse_tokens(tokens) is Ok,
    ensures
        forall|i: int| 0 <= i < tokens.len() ==> #[trigger] in_its_place(tokens, i),
        tokens.len() == 1 + parse_tokens(tokens)->Ok_0.args.len() + 2 * operator_count(
            tokens,
            tokens.len() as int,
        ),
        parse_tokens(tokens)->Ok_0.name == tokens[0],
        arguments_in_order(
            tokens,
            parse_tokens(tokens)->Ok_0.args,
            argument_places(tokens, tokens.len() as int),
        ),
{
    let n = tokens.len() as int;
    assert forall|i: int| 0 <= i < tokens.len() implies #[trigger] in_its_place(tokens, i) by {
        if i > 0 {
            assert(role(tokens, i) is Operator ==> role(tokens, i + 1) is Target);
            assert(role(tokens, i) is Target ==> role(tokens, i - 1) is Operator);
        }
    }
    lemma_token_count(tokens, n);
    lemma_arguments_in_order(tokens, n);
    assert(tokens.take(n) =~= tokens);
}

/// The last redirection of a stream wins: the redirection of `stream` among
/// the first `n` tokens is the one whose path stands last among them, and
/// there is none exactly when no token among them is such a path.
pub proof fn lemma_last_redirection_wins(tokens: Seq<Seq<char>>, n: int, stream: Stream)
    ensures
        redirection(tokens, n, stream) is None <==> forall|k: int|
            0 <= k < n ==> !#[trigger] redirects(tokens, k, stream),
        redirection(tokens, n, stream) matches Some((op, path)) ==> exists|k: int|
            {
                &&& 0 <= k < n
                &&& #[trigger] redirects(tokens, k, stream)
                &&& role(tokens, k) == Role::Target(op)
                &&& tokens[k] == path
                &&& forall|j: int| k < j < n ==> !#[trigger] redirects(tokens, j, stream)
            },
    decreases n,
{
    if n > 0 {
        lemma_last_redirection_wins(tokens, n - 1, stream);
        if redirects(tokens, n - 1, stream) {
        } else if let Some((op, path)) = redirection(tokens, n, stream) {
            let k = choose|k: int|
                {
                    &&& 0 <= k < n - 1
                    &&& #[trigger] redirects(tokens, k, stream)
                    &&& role(tokens, k) == Role::Target(op)
                    &&& tokens[k] == path
                    &&& forall|j: int| k < j < n - 1 ==> !#[trigger] redirects(tokens, j, stream)
                };
            assert(redirects(tokens, k, stream));
        }
    }
}

/// The name of a command that the parser accepts holds at least one
/// character, and neither the name nor an argument holds a blank.
pub proof fn lemma_command_is_named(segment: Seq<char>)
    requires
        parse_command(segment) is Ok,
    ensures
        parse_command(segment)->Ok_0.name.len() > 0,
        forall|j: int|
            0 <= j < parse_command(segment)->Ok_0.name.len() ==> !is_blank(
                #[trigger] parse_command(segment)->Ok_0.name[j],
            ),
        forall|k: int, j: int|
            0 <= k < parse_command(segment)->Ok_0.args.len() && 0 <= j < parse_command(
                segment,
            )->Ok_0.args[k].len() ==> !is_blank(#[trigger] parse_command(segment)->Ok_0.args[k][j]),
{
    let tokens = words(segment);
    let command = parse_command(segment)->Ok_0;
    lemma_words_are_solid(segment);
    assert(command.name == tokens[0]);
    lemma_arguments_in_order(tokens, tokens.len() as int);
    let places = argument_places(tokens, tokens.len() as int);
    assert(tokens.take(tokens.len() as int) =~= tokens);
    assert forall|k: int, j: int|
        0 <= k < command.args.len() && 0 <= j < command.args[k].len() implies !is_blank(
        #[trigger] command.args[k][j],
    ) by {
        assert(command.args[k] == tokens[places[k]]);
        assert(!is_blank(tokens[places[k]][j]));
    }
}

/// When a segment is a command, and which error it yields when it is none:
/// an empty command exactly when it holds nothing but blanks, and a missing
/// path exactly when its last word is an operator.
pub proof fn lemma_when_a_command_parses(segment: Seq<char>)
    ensures
        parse_command(segment) == Err::<CommandView, ParseError>(ParseError::EmptyCommand)
            <==> all_blank(segment),
        forall|op: RedirectOp|
            parse_command(segment) == Err::<CommandView, ParseError>(
                ParseError::MissingRedirectTarget(op),
            ) <==> !all_blank(segment) && role(words(segment), words(segment).len() - 1)
                == Role::Operator(op),
        parse_command(segment) is Ok <==> !all_blank(segment) && !(role(
            words(segment),
            words(segment).len() - 1,
        ) is Operator),
        !(parse_command(segment) == Err::<CommandView, ParseError>(
            ParseError::EmptyPipelineStage,
        )),
{
    lemma_no_word_iff_blank(segment);
}

/// A stage of a pipeline is the command that its segment spells, blanks
/// around it or not; only a segment of blanks alone is reported as an empty
/// stage. So no pipeline fails with an empty command.
pub proof fn lemma_stage_is_its_command(segment: Seq<char>)
    ensures
        parse_stage(segment) == if all_blank(segment) {
            Err(ParseError::EmptyPipelineStage)
        } else {
            parse_command(segment)
        },
        !(parse_stage(segment) == Err::<CommandView, ParseError>(ParseError::EmptyCommand)),
{
    lemma_trim_keeps_words(segment);
    lemma_trim_empty_iff_blank(segment);
    lemma_no_word_iff_blank(segment);
}

/// A line without a pipe is a pipeline of one stage, and that stage is the
/// command that the line spells. Where the line spells no command, the
/// pipeline fails as the command does; a line of blanks alone is reported as
/// an empty stage of the pipeline.
pub proof fn lemma_line_without_pipe(line: Seq<char>)
    requires
        !line.contains('|'),
    ensures
        parse_line(line) == match parse_command(line) {
            Ok(command) => Ok::<Seq<CommandView>, ParseError>(seq![command]),
            Err(ParseError::EmptyCommand) => Err(ParseError::EmptyPipelineStage),
            Err(e) => Err(e),
        },
{
    assert forall|i: int| 0 <= i < line.len() implies !Delimiter::Pipe.matches(
        #[trigger] line[i],
    ) by {
        if line[i] == '|' {
            assert(line.contains('|'));
        }
    }
    lemma_split_without_delimiter(line, Delimiter::Pipe);
    let segments = seq![line];
    assert(parse_stages(segments, 0) == Ok::<Seq<CommandView>, ParseError>(Seq::empty()));
    assert(segments[0] == line);
    lemma_stage_is_its_command(line);
    lemma_when_a_command_parses(line);
    match parse_stage(line) {
        Ok(command) => {
            assert(Seq::<CommandView>::empty().push(command) =~= seq![command]);
        },
        Err(_) => {},
    }
}

/// A line is a pipeline exactly when each of its segments is a command. The
/// pipeline then has one stage for each segment, in order, and so at least
/// one.
pub proof fn lemma_pipeline_stages(line: Seq<char>)
    ensures
        parse_line(line) is Ok <==> forall|k: int|
            0 <= k < split(line, Delimiter::Pipe).len() ==> #[trigger] parse_stage(
                split(line, Delimiter::Pipe)[k],
            ) is Ok,
        parse_line(line) is Ok ==> parse_line(line)->Ok_0.len() == split(
            line,
            Delimiter::Pipe,
        ).len() >= 1,
        parse_line(line) is Ok ==> forall|k: int|
            0 <= k < split(line, Delimiter::Pipe).len() ==> parse_stage(
                #[trigger] split(line, Delimiter::Pipe)[k],
            ) == Ok::<CommandView, ParseError>(parse_line(line)->Ok_0[k]),
{
    let segments = split(line, Delimiter::Pipe);
    lemma_split_has_a_piece(line, Delimiter::Pipe);
    lemma_stages_in_order(segments, segments.len() as int);
}

/// A line is no pipeline exactly when one of its segments is no command, and
/// the error is that of the first such segment.
pub proof fn lemma_first_error_wins(line: Seq<char>)
    requires
        parse_line(line) is Err,
    ensures
        exists|k: int|
            {
                &&& 0 <= k < split(line, Delimiter::Pipe).len()
                &&& #[trigger] parse_stage(split(line, Delimiter::Pipe)[k]) == Err::<
                    CommandView,
                    ParseError,
                >(parse_line(line)->Err_0)
                &&& forall|j: int|
                    0 <= j < k ==> #[trigger] parse_stage(split(line, Delimiter::Pipe)[j]) is Ok
            },
{
    let segments = split(line, Delimiter::Pipe);
    lemma_stages_in_order(segments, segments.len() as int);
    let k = first_failure(segments, segments.len() as int);
    assert(parse_stage(segments[k]) == Err::<CommandView, ParseError>(parse_line(line)->Err_0));
}

/// Parsing is a function of the line: whatever two calls return for one line
/// holds the same.
pub proof fn lemma_parsing_is_repeatable(
    line: Seq<char>,
    first: Result<Vec<ParsedCommand>, ParseError>,
    second: Result<Vec<ParsedCommand>, ParseError>,
)
    requires
        pipeline_outcome(first) == parse_line(line),
        pipeline_outcome(second) == parse_line(line),
    ensures
        pipeline_outcome(first) == pipeline_outcome(second),
{
}

/// An argument at position `i` joins the arguments and leaves every
/// redirection as it was.
pub proof fn lemma_argument_step(tokens: Seq<Seq<char>>, i: int)
    requires
        role(tokens, i) is Argument,
    ensures
        arguments(tokens, i + 1) == arguments(tokens, i).push(tokens[i]),
        forall|stream: Stream|
            #[trigger] redirection(tokens, i + 1, stream) == redirection(tokens, i, stream),
{
}

/// An operator at position `i` claims the token after it: the two add no
/// argument, and the path replaces what the operator's stream was redirected
/// to before.
pub proof fn lemma_redirection_step(tokens: Seq<Seq<char>>, i: int, op: RedirectOp)
    requires
        role(tokens, i) == Role::Operator(op),
    ensures
        role(tokens, i + 1) == Role::Target(op),
        arguments(tokens, i + 2) == arguments(tokens, i),
        forall|stream: Stream|
            #[trigger] redirection(tokens, i + 2, stream) == if op.stream() == stream {
                Some((op, tokens[i + 1]))
            } else {
                redirection(tokens, i, stream)
            },
{
    assert(i >= 1);
    assert(arguments(tokens, i + 1) == arguments(tokens, i));
    assert forall|stream: Stream|
        #[trigger] redirection(tokens, i + 2, stream) == if op.stream() == stream {
            Some((op, tokens[i + 1]))
        } else {
            redirection(tokens, i, stream)
        } by {
        assert(redirection(tokens, i + 1, stream) == redirection(tokens, i, stream));
    }
}

/// Once a segment has failed, the segments after it change nothing.
pub proof fn lemma_first_failure_decides(segments: Seq<Seq<char>>, k: int, n: int)
    requires
        k <= n,
        parse_stages(segments, k) is Err,
    ensures
        parse_stages(segments, n) == parse_stages(segments, k),
    decreases n - k,
{
    if k < n {
        lemma_first_failure_decides(segments, k, n - 1);
    }
}

/// Among the first `n` tokens, the arguments are the tokens in the places of
/// arguments, in the order of the tokens.
pub proof fn lemma_arguments_in_order(tokens: Seq<Seq<char>>, n: int)
    requires
        0 <= n <= tokens.len(),
    ensures
        arguments_in_order(tokens.take(n), arguments(tokens, n), argument_places(tokens, n)),
    decreases n,
{
    let part = tokens.take(n);
    let args = arguments(tokens, n);
    let places = argument_places(tokens, n);
    lemma_role_looks_left(tokens, n);
    if n > 0 {
        lemma_arguments_in_order(tokens, n - 1);
        lemma_role_looks_left(tokens, n - 1);
        let fewer = argument_places(tokens, n - 1);
        assert forall|i: int| 0 <= i < n && #[trigger] role(part, i) is Argument implies
            places.contains(i) by {
            if i < n - 1 {
                assert(role(tokens.take(n - 1), i) is Argument);
                let k = choose|k: int| 0 <= k < fewer.len() && fewer[k] == i;
                assert(places[k] == i);
            } else {
                assert(places[places.len() - 1] == i);
            }
        }
        assert forall|j: int, k: int| 0 <= j < k < places.len() implies places[j] < places[k] by {
            if k < fewer.len() {
                assert(fewer[j] < fewer[k]);
            } else {
                assert(0 < fewer[j] < n - 1);
            }
        }
    }
}

/// The part of a token depends on the tokens up to it alone.
pub proof fn lemma_role_looks_left(tokens: Seq<Seq<char>>, n: int)
    requires
        0 <= n <= tokens.len(),
    ensures
        forall|i: int| 0 <= i < n ==> #[trigger] role(tokens.take(n), i) == role(tokens, i),
    decreases n,
{
    if n > 0 {
        lemma_role_looks_left(tokens, n - 1);
        assert forall|i: int| 0 <= i < n implies #[trigger] role(tokens.take(n), i) == role(
            tokens,
            i,
        ) by {
            lemma_role_at(tokens, n, i);
        }
    }
}

/// The part of the token at place `i` is the same in `tokens` and in its
/// first `n` tokens, where `i` is among them.
pub proof fn lemma_role_at(tokens: Seq<Seq<char>>, n: int, i: int)
    requires
        0 <= i < n <= tokens.len(),
    ensures
        role(tokens.take(n), i) == role(tokens, i),
    decreases i,
{
    if i > 0 {
        lemma_role_at(tokens, n, i - 1);
        assert(tokens.take(n)[i] == tokens[i]);
    }
}

/// Where the token before place `n` is no operator, the first `n` tokens are
/// the name, the arguments, and two tokens for each operator.
pub proof fn lemma_token_count(tokens: Seq<Seq<char>>, n: int)
    requires
        1 <= n,
        !(role(tokens, n - 1) is Operator),
    ensures
        n == 1 + arguments(tokens, n).len() + 2 * operator_count(tokens, n),
    decreases n,
{
    if n == 1 {
        assert(arguments(tokens, 0).len() == 0);
        assert(operator_count(tokens, 0) == 0);
    } else if role(tokens, n - 1) is Target {
        assert(role(tokens, n - 2) is Operator);
        assert(n >= 3);
        assert(!(role(tokens, n - 3) is Operator));
        lemma_token_count(tokens, n - 2);
        assert(arguments(tokens, n - 1) == arguments(tokens, n - 2));
        assert(operator_count(tokens, n - 1) == operator_count(tokens, n - 2) + 1);
    } else {
        lemma_token_count(tokens, n - 1);
    }
}

/// The first `n` segments yield their commands, in order, where each of
/// them is a command, and the error of the first that is none otherwise.
pub proof fn lemma_stages_in_order(segments: Seq<Seq<char>>, n: int)
    requires
        0 <= n <= segments.len(),
    ensures
        0 <= first_failure(segments, n) <= n,
        forall|j: int|
            0 <= j < first_failure(segments, n) ==> #[trigger] parse_stage(segments[j]) is Ok,
        first_failure(segments, n) < n ==> parse_stages(segments, n) == Err::<
            Seq<CommandView>,
            ParseError,
        >(parse_stage(segments[first_failure(segments, n)])->Err_0) && parse_stage(
            segments[first_failure(segments, n)],
        ) is Err,
        first_failure(segments, n) == n ==> parse_stages(segments, n) is Ok && parse_stages(
            segments,
            n,
        )->Ok_0.len() == n && forall|j: int|
            0 <= j < n ==> #[trigger] parse_stage(segments[j]) == Ok::<CommandView, ParseError>(
                parse_stages(segments, n)->Ok_0[j],
            ),
    decreases n,
{
    if n > 0 {
        lemma_stages_in_order(segments, n - 1);
    }
}

} // verus!
