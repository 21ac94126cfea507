use my_shell::builtin::{destination_of, intercept, Builtin, Destination};
use my_shell::parser::{parse_pipeline_commands, parse_single_command};

fn intercepted(line: &str) -> Option<Builtin> {
    intercept(&parse_pipeline_commands(line).unwrap())
}

#[test]
fn the_three_builtins_are_taken_alone() {
    assert_eq!(intercepted("exit"), Some(Builtin::Exit));
    assert_eq!(intercepted("cd /tmp"), Some(Builtin::ChangeDirectory));
    assert_eq!(intercepted("pwd"), Some(Builtin::PrintWorkingDirectory));
    assert_eq!(intercepted("  exit now > x "), Some(Builtin::Exit));
}

#[test]
fn other_names_are_programs() {
    assert_eq!(intercepted("ls"), None);
    assert_eq!(intercepted("Exit"), None);
    assert_eq!(intercepted("cdx"), None);
    assert_eq!(intercepted("echo exit"), None);
}

#[test]
fn builtins_in_a_longer_pipeline_are_programs() {
    assert_eq!(intercepted("pwd | wc"), None);
    assert_eq!(intercepted("ls | exit"), None);
    assert_eq!(intercepted("cd / | cd /"), None);
}

#[test]
fn no_stage_no_builtin() {
    assert_eq!(intercept(&[]), None);
}

#[test]
fn cd_takes_exactly_one_directory() {
    let command = parse_single_command("cd").unwrap();
    assert_eq!(destination_of(&command), Destination::Missing);
    let command = parse_single_command("cd /tmp").unwrap();
    assert_eq!(destination_of(&command), Destination::Directory("/tmp".to_string()));
    let command = parse_single_command("cd a b").unwrap();
    assert_eq!(destination_of(&command), Destination::TooMany);
    let command = parse_single_command("cd > out").unwrap();
    assert_eq!(destination_of(&command), Destination::Missing);
}
