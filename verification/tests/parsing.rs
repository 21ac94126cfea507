use my_shell::command::{ParseError, ParsedCommand, RedirectOp};
use my_shell::parser::{operator_of, parse_pipeline_commands, parse_single_command, parse_words};

fn strings(items: &[&str]) -> Vec<String> {
    items.iter().map(|s| s.to_string()).collect()
}

fn plain(name: &str, args: &[&str]) -> ParsedCommand {
    ParsedCommand {
        name: name.to_string(),
        args: strings(args),
        stdin_redirect: None,
        stdout_redirect: None,
        stderr_redirect: None,
    }
}

#[test]
fn name_and_arguments_in_order() {
    let command = parse_single_command("ls -l -a /tmp").unwrap();
    assert_eq!(command, plain("ls", &["-l", "-a", "/tmp"]));
}

#[test]
fn name_alone() {
    let command = parse_single_command("pwd").unwrap();
    assert_eq!(command, plain("pwd", &[]));
}

#[test]
fn blanks_of_every_kind_separate_words() {
    let command = parse_single_command("\t echo\n a\r\u{0B}b\u{0C}c  ").unwrap();
    assert_eq!(command, plain("echo", &["a", "b", "c"]));
}

#[test]
fn other_white_space_separates_nothing() {
    let command = parse_single_command("echo\u{00A0}hi\u{3000}there").unwrap();
    assert_eq!(command, plain("echo\u{00A0}hi\u{3000}there", &[]));
}

#[test]
fn quotes_are_ordinary_characters() {
    let command = parse_single_command("echo \"hello world\"").unwrap();
    assert_eq!(command, plain("echo", &["\"hello", "world\""]));
}

#[test]
fn input_redirection() {
    let command = parse_single_command("sort < in.txt").unwrap();
    let mut expected = plain("sort", &[]);
    expected.stdin_redirect = Some("in.txt".to_string());
    assert_eq!(command, expected);
}

#[test]
fn output_redirection_truncates() {
    let command = parse_single_command("echo x > out.txt").unwrap();
    let mut expected = plain("echo", &["x"]);
    expected.stdout_redirect = Some(("out.txt".to_string(), false));
    assert_eq!(command, expected);
}

#[test]
fn output_redirection_appends() {
    let command = parse_single_command("echo y >> out.txt").unwrap();
    let mut expected = plain("echo", &["y"]);
    expected.stdout_redirect = Some(("out.txt".to_string(), true));
    assert_eq!(command, expected);
}

#[test]
fn error_redirection() {
    let command = parse_single_command("make 2> err.log all").unwrap();
    let mut expected = plain("make", &["all"]);
    expected.stderr_redirect = Some("err.log".to_string());
    assert_eq!(command, expected);
}

#[test]
fn every_token_has_one_place() {
    let command =
        parse_single_command("sort -r < in.txt -u > out.txt 2> err.txt last").unwrap();
    assert_eq!(command.name, "sort");
    assert_eq!(command.args, strings(&["-r", "-u", "last"]));
    assert_eq!(command.stdin_redirect, Some("in.txt".to_string()));
    assert_eq!(command.stdout_redirect, Some(("out.txt".to_string(), false)));
    assert_eq!(command.stderr_redirect, Some("err.txt".to_string()));
    let tokens = 10;
    let pairs = 3;
    assert_eq!(tokens, 1 + command.args.len() + 2 * pairs);
}

#[test]
fn redirect_overwrite_last_wins() {
    let command = parse_single_command("cat > a.txt > b.txt").unwrap();
    assert_eq!(command.stdout_redirect, Some(("b.txt".to_string(), false)));
    assert_eq!(command.args, Vec::<String>::new());
    assert_eq!(command.name, "cat");
}

#[test]
fn append_after_truncate_wins() {
    let command = parse_single_command("cat > a.txt >> b.txt").unwrap();
    assert_eq!(command.stdout_redirect, Some(("b.txt".to_string(), true)));
}

#[test]
fn truncate_after_append_wins() {
    let command = parse_single_command("cat >> a.txt > b.txt").unwrap();
    assert_eq!(command.stdout_redirect, Some(("b.txt".to_string(), false)));
}

#[test]
fn later_input_and_error_redirections_win() {
    let command = parse_single_command("cat < a < b 2> c 2> d").unwrap();
    assert_eq!(command.stdin_redirect, Some("b".to_string()));
    assert_eq!(command.stderr_redirect, Some("d".to_string()));
}

#[test]
fn missing_target_after_output() {
    assert_eq!(
        parse_single_command("cat >"),
        Err(ParseError::MissingRedirectTarget(RedirectOp::Output))
    );
}

#[test]
fn missing_target_after_input() {
    assert_eq!(
        parse_single_command("cat <"),
        Err(ParseError::MissingRedirectTarget(RedirectOp::Input))
    );
}

#[test]
fn missing_target_after_append() {
    assert_eq!(
        parse_single_command("cat a >>"),
        Err(ParseError::MissingRedirectTarget(RedirectOp::Append))
    );
}

#[test]
fn missing_target_after_error() {
    assert_eq!(
        parse_single_command("cat > out 2>"),
        Err(ParseError::MissingRedirectTarget(RedirectOp::Error))
    );
}

#[test]
fn empty_segment_is_an_empty_command() {
    assert_eq!(parse_single_command(""), Err(ParseError::EmptyCommand));
    assert_eq!(parse_single_command(" \t "), Err(ParseError::EmptyCommand));
}

#[test]
fn an_operator_claims_the_next_token_whatever_it_spells() {
    let command = parse_single_command("cat > >").unwrap();
    assert_eq!(command.stdout_redirect, Some((">".to_string(), false)));
    let command = parse_single_command("cat < 2> x").unwrap();
    assert_eq!(command.stdin_redirect, Some("2>".to_string()));
    assert_eq!(command.stderr_redirect, None);
    assert_eq!(command.args, strings(&["x"]));
}

#[test]
fn the_first_token_is_the_name_even_if_it_spells_an_operator() {
    let command = parse_single_command("< file").unwrap();
    assert_eq!(command, plain("<", &["file"]));
    let command = parse_single_command(">").unwrap();
    assert_eq!(command, plain(">", &[]));
}

#[test]
fn operators_must_stand_alone() {
    let command = parse_single_command("cat >out.txt 2>err <in 1> x").unwrap();
    assert_eq!(command, plain("cat", &[">out.txt", "2>err", "<in", "1>", "x"]));
}

#[test]
fn operator_of_knows_the_four_operators() {
    assert_eq!(operator_of("<"), Some(RedirectOp::Input));
    assert_eq!(operator_of(">"), Some(RedirectOp::Output));
    assert_eq!(operator_of(">>"), Some(RedirectOp::Append));
    assert_eq!(operator_of("2>"), Some(RedirectOp::Error));
    assert_eq!(operator_of("<<"), None);
    assert_eq!(operator_of("1>"), None);
    assert_eq!(operator_of(">>>"), None);
    assert_eq!(operator_of(""), None);
    assert_eq!(operator_of("|"), None);
}

#[test]
fn parse_words_takes_tokens_as_they_are() {
    let tokens = vec!["grep", "a b", ">", "out file"];
    let command = parse_words(&tokens).unwrap();
    let mut expected = plain("grep", &["a b"]);
    expected.stdout_redirect = Some(("out file".to_string(), false));
    assert_eq!(command, expected);
    assert_eq!(parse_words(&Vec::new()), Err(ParseError::EmptyCommand));
}

#[test]
fn line_without_pipe_is_one_command() {
    for line in ["ls -l", "  cat < a > b  ", "x", "sort 2> e -r"] {
        let pipeline = parse_pipeline_commands(line).unwrap();
        assert_eq!(pipeline, vec![parse_single_command(line).unwrap()]);
    }
}

#[test]
fn line_without_pipe_fails_as_its_command_does() {
    assert_eq!(parse_pipeline_commands("cat >"), parse_single_command("cat >").map(|c| vec![c]));
    assert_eq!(parse_single_command("   "), Err(ParseError::EmptyCommand));
    assert_eq!(parse_pipeline_commands("   "), Err(ParseError::EmptyPipelineStage));
}

#[test]
fn pipeline_of_three_stages() {
    let pipeline = parse_pipeline_commands("cat < in.txt | grep -v x | wc -l > n.txt").unwrap();
    let mut first = plain("cat", &[]);
    first.stdin_redirect = Some("in.txt".to_string());
    let second = plain("grep", &["-v", "x"]);
    let mut third = plain("wc", &["-l"]);
    third.stdout_redirect = Some(("n.txt".to_string(), false));
    assert_eq!(pipeline, vec![first, second, third]);
}

#[test]
fn pipes_need_no_blanks_around_them() {
    let pipeline = parse_pipeline_commands("echo a|tr a b").unwrap();
    assert_eq!(pipeline, vec![plain("echo", &["a"]), plain("tr", &["a", "b"])]);
}

#[test]
fn empty_stage_in_the_middle() {
    assert_eq!(parse_pipeline_commands("echo hi | | wc"), Err(ParseError::EmptyPipelineStage));
}

#[test]
fn empty_stage_at_either_end() {
    assert_eq!(parse_pipeline_commands("| wc"), Err(ParseError::EmptyPipelineStage));
    assert_eq!(parse_pipeline_commands("echo hi |"), Err(ParseError::EmptyPipelineStage));
    assert_eq!(parse_pipeline_commands("|"), Err(ParseError::EmptyPipelineStage));
    assert_eq!(parse_pipeline_commands(""), Err(ParseError::EmptyPipelineStage));
}

#[test]
fn the_first_failing_stage_decides() {
    assert_eq!(
        parse_pipeline_commands("cat > | | wc"),
        Err(ParseError::MissingRedirectTarget(RedirectOp::Output))
    );
    assert_eq!(
        parse_pipeline_commands("cat | | wc 2>"),
        Err(ParseError::EmptyPipelineStage)
    );
    assert_eq!(
        parse_pipeline_commands("cat | wc 2> | sort <"),
        Err(ParseError::MissingRedirectTarget(RedirectOp::Error))
    );
}

#[test]
fn redirections_are_kept_on_every_stage() {
    let pipeline = parse_pipeline_commands("a > x | b < y | c").unwrap();
    assert_eq!(pipeline[0].stdout_redirect, Some(("x".to_string(), false)));
    assert_eq!(pipeline[1].stdin_redirect, Some("y".to_string()));
    assert_eq!(pipeline[2], plain("c", &[]));
}

#[test]
fn parsing_twice_gives_the_same() {
    for line in ["echo a | tr a b", "cat >", "a | | b", "x < y >> z 2> w | v"] {
        assert_eq!(parse_pipeline_commands(line), parse_pipeline_commands(line));
    }
}

#[test]
fn names_are_never_empty() {
    for line in ["a|b|c", "  ls  |  wc  ", "x"] {
        for command in parse_pipeline_commands(line).unwrap() {
            assert!(!command.name.is_empty());
        }
    }
}
