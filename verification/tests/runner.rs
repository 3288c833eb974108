use tpi::platform::Platform;
use tpi::runner::{run_commands, Outcome, Phase, Task, Turn};

fn spawn(command: &str) -> Task {
    Task::Spawn { program: "sh".to_string(), flag: "-c".to_string(), command: command.to_string() }
}

fn quiet(task: Task) -> Turn {
    Turn { echo: None, task }
}

fn exited(stdout: &str) -> Outcome {
    Outcome::Exited { stdout: stdout.to_string() }
}

fn failed(cause: &str) -> Outcome {
    Outcome::Failed { cause: cause.to_string() }
}

fn out_of_turn() -> Turn {
    quiet(Task::Fail { cause: "Unexpected event".to_string() })
}

#[test]
fn touch_a_runs_before_touch_b() {
    let mut runner = run_commands("touch a, touch b", Platform::Unix);
    assert_eq!(runner.commands, vec!["touch a", "touch b"]);
    assert_eq!(runner.phase, Phase::Start);
    assert_eq!(runner.advance(Outcome::Begin), quiet(Task::EnterScratch));
    assert_eq!(runner.advance(Outcome::Done), quiet(spawn("touch a")));
    assert_eq!(runner.advance(exited("")), quiet(spawn("touch b")));
    assert_eq!(runner.advance(exited("")), quiet(Task::LeaveScratch));
    assert_eq!(runner.advance(Outcome::Done), quiet(Task::Done));
    assert_eq!(runner.phase, Phase::Finished);
}

#[test]
fn output_is_shown_unless_it_is_empty() {
    let mut runner = run_commands("echo hello\ntrue\necho bye", Platform::Unix);
    runner.advance(Outcome::Begin);
    assert_eq!(runner.advance(Outcome::Done), quiet(spawn("echo hello")));
    assert_eq!(
        runner.advance(exited("hello\n")),
        Turn { echo: Some("hello\n".to_string()), task: spawn("true") }
    );
    assert_eq!(runner.advance(exited("")), quiet(spawn("echo bye")));
    assert_eq!(
        runner.advance(exited("bye\n")),
        Turn { echo: Some("bye\n".to_string()), task: Task::LeaveScratch }
    );
    assert_eq!(runner.advance(Outcome::Done), quiet(Task::Done));
}

#[test]
fn an_empty_list_still_enters_and_leaves_the_scratch_directory() {
    let mut runner = run_commands("", Platform::Unix);
    assert_eq!(runner.advance(Outcome::Begin), quiet(Task::EnterScratch));
    assert_eq!(runner.advance(Outcome::Done), quiet(Task::LeaveScratch));
    assert_eq!(runner.advance(Outcome::Done), quiet(Task::Done));
}

#[test]
fn windows_runs_commands_through_powershell() {
    let mut runner = run_commands("dir", Platform::Windows);
    runner.advance(Outcome::Begin);
    assert_eq!(
        runner.advance(Outcome::Done),
        quiet(Task::Spawn {
            program: "powershell.exe".to_string(),
            flag: "-Command".to_string(),
            command: "dir".to_string(),
        })
    );
}

#[test]
fn a_command_that_cannot_be_started_ends_the_run() {
    let mut runner = run_commands("a\nb\nc", Platform::Unix);
    runner.advance(Outcome::Begin);
    runner.advance(Outcome::Done);
    assert_eq!(runner.advance(exited("")), quiet(spawn("b")));
    assert_eq!(runner.advance(failed("no such shell")), quiet(Task::LeaveScratch));
    assert_eq!(runner.phase, Phase::Leaving);
    assert_eq!(
        runner.advance(Outcome::Done),
        quiet(Task::Fail { cause: "no such shell".to_string() })
    );
    assert_eq!(runner.phase, Phase::Finished);
    assert_eq!(runner.advance(Outcome::Done), out_of_turn());
}

#[test]
fn a_scratch_directory_that_cannot_be_entered_ends_the_run() {
    let mut runner = run_commands("a", Platform::Unix);
    runner.advance(Outcome::Begin);
    assert_eq!(
        runner.advance(failed("disk full")),
        quiet(Task::Fail { cause: "disk full".to_string() })
    );
    assert_eq!(runner.phase, Phase::Finished);
}

#[test]
fn a_scratch_directory_that_cannot_be_deleted_is_no_failure() {
    let mut runner = run_commands("a", Platform::Unix);
    runner.advance(Outcome::Begin);
    runner.advance(Outcome::Done);
    runner.advance(exited(""));
    assert_eq!(runner.advance(failed("busy")), quiet(Task::Done));
}

#[test]
fn outcomes_out_of_turn_end_the_run() {
    let mut runner = run_commands("a", Platform::Unix);
    assert_eq!(runner.advance(Outcome::Done), out_of_turn());
    assert_eq!(runner.advance(Outcome::Begin), out_of_turn());

    let mut runner = run_commands("a", Platform::Unix);
    runner.advance(Outcome::Begin);
    assert_eq!(runner.advance(exited("x")), out_of_turn());

    let mut runner = run_commands("a", Platform::Unix);
    runner.advance(Outcome::Begin);
    runner.advance(Outcome::Done);
    assert_eq!(runner.advance(Outcome::Done), quiet(Task::LeaveScratch));
    assert_eq!(runner.advance(Outcome::Done), out_of_turn());

    let mut runner = run_commands("", Platform::Unix);
    runner.advance(Outcome::Begin);
    runner.advance(Outcome::Done);
    assert_eq!(runner.advance(Outcome::Begin), out_of_turn());
}

#[test]
fn final_tasks() {
    assert!(Task::Done.is_final());
    assert!(Task::Fail { cause: String::new() }.is_final());
    assert!(!Task::EnterScratch.is_final());
    assert!(!Task::LeaveScratch.is_final());
    assert!(!spawn("a").is_final());
}
