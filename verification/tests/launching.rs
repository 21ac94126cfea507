use my_shell::command::ParsedCommand;
use my_shell::executor::model::Wiring;
use my_shell::executor::run::{
    error_wiring_of, input_wiring_of, output_wiring_of, Action, ExecutionError, Outcome,
    PipelineRun,
};
use my_shell::parser::parse_pipeline_commands;

fn done() -> Outcome {
    Outcome::Success { piped_output: false }
}

fn piped() -> Outcome {
    Outcome::Success { piped_output: true }
}

fn failed(cause: &str) -> Outcome {
    Outcome::Failure { cause: cause.to_string() }
}

fn spawn(stage: usize, stdin: Wiring, stdout: Wiring, stderr: Wiring) -> Action {
    Action::Spawn { stage, stdin, stdout, stderr }
}

/// Feeds the outcomes to a run of `line`, and returns every request made.
fn requests(line: &str, outcomes: Vec<Outcome>) -> Vec<Action> {
    let commands = parse_pipeline_commands(line).unwrap();
    let (mut run, first) = PipelineRun::start(&commands);
    let mut actions = vec![first];
    for outcome in outcomes {
        actions.push(run.step(outcome));
    }
    actions
}

#[test]
fn single_command_inherits_everything() {
    assert_eq!(
        requests("ls -l", vec![done()]),
        vec![
            spawn(0, Wiring::Inherit, Wiring::Inherit, Wiring::Inherit),
            Action::Wait { count: 1 },
        ]
    );
}

#[test]
fn two_stages_are_joined_by_a_pipe() {
    assert_eq!(
        requests("echo a | tr a b", vec![piped(), done()]),
        vec![
            spawn(0, Wiring::Inherit, Wiring::Pipe, Wiring::Inherit),
            spawn(1, Wiring::Pipe, Wiring::Inherit, Wiring::Inherit),
            Action::Wait { count: 2 },
        ]
    );
}

#[test]
fn output_file_is_emptied() {
    assert_eq!(
        requests("echo x > out.txt", vec![done(), done()]),
        vec![
            Action::OpenOutput { path: "out.txt".to_string(), append: false },
            spawn(0, Wiring::Inherit, Wiring::File, Wiring::Inherit),
            Action::Wait { count: 1 },
        ]
    );
}

#[test]
fn output_file_is_appended_to() {
    assert_eq!(
        requests("echo y >> out.txt", vec![done(), done()]),
        vec![
            Action::OpenOutput { path: "out.txt".to_string(), append: true },
            spawn(0, Wiring::Inherit, Wiring::File, Wiring::Inherit),
            Action::Wait { count: 1 },
        ]
    );
}

#[test]
fn files_are_opened_in_the_order_input_output_error() {
    assert_eq!(
        requests("sort 2> e > o < i", vec![done(), done(), done(), done()]),
        vec![
            Action::OpenInput { path: "i".to_string() },
            Action::OpenOutput { path: "o".to_string(), append: false },
            Action::OpenError { path: "e".to_string() },
            spawn(0, Wiring::File, Wiring::File, Wiring::File),
            Action::Wait { count: 1 },
        ]
    );
}

#[test]
fn only_the_first_stage_reads_its_input_file() {
    assert_eq!(
        requests("a < x | b < y", vec![done(), piped(), done()]),
        vec![
            Action::OpenInput { path: "x".to_string() },
            spawn(0, Wiring::File, Wiring::Pipe, Wiring::Inherit),
            spawn(1, Wiring::Pipe, Wiring::Inherit, Wiring::Inherit),
            Action::Wait { count: 2 },
        ]
    );
}

#[test]
fn only_the_last_stage_writes_its_output_file() {
    assert_eq!(
        requests("a > x | b > y", vec![piped(), done(), done()]),
        vec![
            spawn(0, Wiring::Inherit, Wiring::Pipe, Wiring::Inherit),
            Action::OpenOutput { path: "y".to_string(), append: false },
            spawn(1, Wiring::Pipe, Wiring::File, Wiring::Inherit),
            Action::Wait { count: 2 },
        ]
    );
}

#[test]
fn every_stage_has_its_own_error_file() {
    assert_eq!(
        requests("a 2> x | b | c 2> z", vec![done(), piped(), piped(), done(), done()]),
        vec![
            Action::OpenError { path: "x".to_string() },
            spawn(0, Wiring::Inherit, Wiring::Pipe, Wiring::File),
            spawn(1, Wiring::Pipe, Wiring::Pipe, Wiring::Inherit),
            Action::OpenError { path: "z".to_string() },
            spawn(2, Wiring::Pipe, Wiring::Inherit, Wiring::File),
            Action::Wait { count: 3 },
        ]
    );
}

#[test]
fn a_stage_without_a_pipe_handed_over_inherits() {
    assert_eq!(
        requests("a | b < y", vec![done(), done()]),
        vec![
            spawn(0, Wiring::Inherit, Wiring::Pipe, Wiring::Inherit),
            spawn(1, Wiring::Inherit, Wiring::Inherit, Wiring::Inherit),
            Action::Wait { count: 2 },
        ]
    );
}

#[test]
fn failed_output_of_the_last_stage_kills_the_two_before() {
    let actions = requests("a | b | c > /", vec![piped(), piped(), failed("is a directory")]);
    assert_eq!(
        actions,
        vec![
            spawn(0, Wiring::Inherit, Wiring::Pipe, Wiring::Inherit),
            spawn(1, Wiring::Pipe, Wiring::Pipe, Wiring::Inherit),
            Action::OpenOutput { path: "/".to_string(), append: false },
            Action::Abort {
                error: ExecutionError::OutputRedirectFailed {
                    path: "/".to_string(),
                    cause: "is a directory".to_string(),
                },
                kill: 2,
            },
        ]
    );
}

#[test]
fn output_file_of_a_middle_stage_is_never_opened() {
    let actions = requests("a | b > / | c", vec![piped(), piped(), done()]);
    assert_eq!(
        actions,
        vec![
            spawn(0, Wiring::Inherit, Wiring::Pipe, Wiring::Inherit),
            spawn(1, Wiring::Pipe, Wiring::Pipe, Wiring::Inherit),
            spawn(2, Wiring::Pipe, Wiring::Inherit, Wiring::Inherit),
            Action::Wait { count: 3 },
        ]
    );
}

#[test]
fn failed_error_file_of_the_middle_stage_kills_the_first() {
    let actions = requests("a | b 2> / | c", vec![piped(), failed("denied"), done(), done()]);
    assert_eq!(
        actions,
        vec![
            spawn(0, Wiring::Inherit, Wiring::Pipe, Wiring::Inherit),
            Action::OpenError { path: "/".to_string() },
            Action::Abort {
                error: ExecutionError::ErrorRedirectFailed {
                    path: "/".to_string(),
                    cause: "denied".to_string(),
                },
                kill: 1,
            },
            Action::Done,
            Action::Done,
        ]
    );
}

#[test]
fn failed_input_file_kills_nothing() {
    let actions = requests("a < missing | b", vec![failed("not found")]);
    assert_eq!(
        actions,
        vec![
            Action::OpenInput { path: "missing".to_string() },
            Action::Abort {
                error: ExecutionError::InputRedirectFailed {
                    path: "missing".to_string(),
                    cause: "not found".to_string(),
                },
                kill: 0,
            },
        ]
    );
}

#[test]
fn failed_spawn_names_the_program() {
    let actions = requests("a | nosuch -x | c", vec![piped(), failed("not found")]);
    assert_eq!(
        actions[2],
        Action::Abort {
            error: ExecutionError::SpawnFailed {
                name: "nosuch".to_string(),
                cause: "not found".to_string(),
            },
            kill: 1,
        }
    );
}

#[test]
fn failed_spawn_of_the_first_stage() {
    let actions = requests("nosuch", vec![failed("not found"), done()]);
    assert_eq!(
        actions,
        vec![
            spawn(0, Wiring::Inherit, Wiring::Inherit, Wiring::Inherit),
            Action::Abort {
                error: ExecutionError::SpawnFailed {
                    name: "nosuch".to_string(),
                    cause: "not found".to_string(),
                },
                kill: 0,
            },
            Action::Done,
        ]
    );
}

#[test]
fn nothing_is_asked_after_the_end() {
    let actions = requests("a", vec![done(), done(), failed("x"), piped()]);
    assert_eq!(actions[1], Action::Wait { count: 1 });
    assert_eq!(actions[2..], [Action::Done, Action::Done, Action::Done]);
}

#[test]
fn empty_pipeline_has_nothing_to_wait_for() {
    let commands: Vec<ParsedCommand> = Vec::new();
    let (mut run, first) = PipelineRun::start(&commands);
    assert_eq!(first, Action::Wait { count: 0 });
    assert!(run.is_finished());
    assert_eq!(run.step(done()), Action::Done);
}

#[test]
fn a_run_is_finished_after_wait_or_abort() {
    let commands = parse_pipeline_commands("a | b").unwrap();
    let (mut run, _) = PipelineRun::start(&commands);
    assert!(!run.is_finished());
    run.step(piped());
    assert!(!run.is_finished());
    assert_eq!(run.step(done()), Action::Wait { count: 2 });
    assert!(run.is_finished());
    let (mut run, _) = PipelineRun::start(&commands);
    run.step(failed("x"));
    assert!(run.is_finished());
}

#[test]
fn every_started_process_is_killed_or_waited_for() {
    let line = "a < i | b 2> e | c >> o 2> f";
    let script = [true, true, true, true, true, true, true];
    for fail_at in 0..=script.len() {
        let commands = parse_pipeline_commands(line).unwrap();
        let (mut run, mut action) = PipelineRun::start(&commands);
        let mut started = 0;
        let mut step = 0;
        loop {
            let outcome = match &action {
                Action::Abort { kill, .. } => {
                    assert_eq!(*kill, started);
                    assert_eq!(step, fail_at + 1);
                    break;
                }
                Action::Wait { count } => {
                    assert_eq!(*count, started);
                    assert_eq!(*count, commands.len());
                    break;
                }
                Action::Done => panic!("asked for nothing before the end"),
                _ if step == fail_at => failed("no"),
                Action::Spawn { stage, .. } => {
                    assert_eq!(*stage, started);
                    started += 1;
                    piped()
                }
                _ => done(),
            };
            step += 1;
            action = run.step(outcome);
        }
        assert!(run.is_finished());
    }
}

#[test]
fn wiring_of_standard_input() {
    let commands = parse_pipeline_commands("a < x").unwrap();
    assert_eq!(input_wiring_of(&commands[0], 0, false), Wiring::File);
    assert_eq!(input_wiring_of(&commands[0], 0, true), Wiring::Pipe);
    assert_eq!(input_wiring_of(&commands[0], 1, false), Wiring::Inherit);
    assert_eq!(input_wiring_of(&commands[0], 1, true), Wiring::Pipe);
    let commands = parse_pipeline_commands("a").unwrap();
    assert_eq!(input_wiring_of(&commands[0], 0, false), Wiring::Inherit);
}

#[test]
fn wiring_of_standard_output() {
    let commands = parse_pipeline_commands("a > x").unwrap();
    assert_eq!(output_wiring_of(&commands[0], 0, 1), Wiring::File);
    assert_eq!(output_wiring_of(&commands[0], 0, 2), Wiring::Pipe);
    assert_eq!(output_wiring_of(&commands[0], 1, 2), Wiring::File);
    assert_eq!(output_wiring_of(&commands[0], 0, 0), Wiring::File);
    let commands = parse_pipeline_commands("a").unwrap();
    assert_eq!(output_wiring_of(&commands[0], 2, 3), Wiring::Inherit);
    assert_eq!(output_wiring_of(&commands[0], 1, 3), Wiring::Pipe);
}

#[test]
fn wiring_of_standard_error() {
    let commands = parse_pipeline_commands("a 2> x | b").unwrap();
    assert_eq!(error_wiring_of(&commands[0]), Wiring::File);
    assert_eq!(error_wiring_of(&commands[1]), Wiring::Inherit);
}
