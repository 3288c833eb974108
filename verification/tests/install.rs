use tpi::action::{Action, Event, Failure, Stage};
use tpi::descriptor::{DescriptorError, Field};
use tpi::install::install_package;
use tpi::platform::Platform;
use tpi::runner::{run_commands, Outcome, Task};

const HELLO: &str = "name => hello\nversion => 1.0\nauthor => me\nunix_deps =>\nwin_deps =>\ncommands => echo hello\nuninstall => echo bye\n";

const WITH_DEPS: &str = "name => tool\nversion => 2\nauthor => you\nunix_deps => apt update, apt install x\nwin_deps => choco install x\ncommands => make\n> make install\nuninstall => make uninstall\n";

fn text(text: &str) -> Event {
    Event::Text { text: text.to_string() }
}

fn failed(cause: &str) -> Event {
    Event::Failed { cause: cause.to_string() }
}

fn run(list: &str) -> Action {
    Action::Run { list: list.to_string() }
}

fn unexpected() -> Action {
    Action::Fail { failure: Failure::Unexpected }
}

#[test]
fn install_of_a_local_descriptor_end_to_end() {
    let mut install = install_package("./hello.srb", Platform::Unix);
    assert_eq!(install.stage, Stage::Start);
    assert_eq!(
        install.advance(Event::Begin),
        Action::ReadDescriptor { path: "./hello.srb".to_string() }
    );
    assert_eq!(install.advance(text(HELLO)), run(""));
    assert_eq!(install.descriptor.as_ref().unwrap().name, "hello");
    assert_eq!(install.advance(Event::Done), run("echo hello"));
    assert_eq!(
        install.advance(Event::Done),
        Action::ReadManifest { path: "/var/lib/tpi/packages".to_string() }
    );
    assert_eq!(
        install.advance(text("")),
        Action::WriteManifest {
            path: "/var/lib/tpi/packages".to_string(),
            contents: "./hello.srb\n".to_string(),
        }
    );
    assert_eq!(install.advance(Event::Done), Action::Succeed);
    assert_eq!(install.stage, Stage::Finished);
}

#[test]
fn install_of_a_local_descriptor_shows_hello_and_records_the_path() {
    let mut install = install_package("./hello.srb", Platform::Unix);
    install.advance(Event::Begin);
    let mut shown: Vec<String> = Vec::new();
    let mut spawned: Vec<String> = Vec::new();
    let mut action = install.advance(text(HELLO));
    while let Action::Run { list } = &action {
        let mut runner = run_commands(list, Platform::Unix);
        let mut turn = runner.advance(Outcome::Begin);
        while !turn.task.is_final() {
            let outcome = match &turn.task {
                Task::Spawn { command, .. } => {
                    spawned.push(command.clone());
                    let said = command.strip_prefix("echo ").unwrap_or("");
                    Outcome::Exited { stdout: format!("{}\n", said) }
                }
                _ => Outcome::Done,
            };
            turn = runner.advance(outcome);
            if let Some(echo) = &turn.echo {
                shown.push(echo.clone());
            }
        }
        assert_eq!(turn.task, Task::Done);
        action = install.advance(Event::Done);
    }
    assert_eq!(spawned, vec!["echo hello"]);
    assert!(shown.iter().any(|line| line.contains("hello")));
    assert!(matches!(action, Action::ReadManifest { .. }));
    assert_eq!(
        install.advance(text("./other.srb\n")),
        Action::WriteManifest {
            path: "/var/lib/tpi/packages".to_string(),
            contents: "./other.srb\n./hello.srb\n".to_string(),
        }
    );
    assert_eq!(install.advance(Event::Done), Action::Succeed);
}

#[test]
fn install_appends_to_the_manifest_that_is_there() {
    let mut install = install_package("./hello.srb", Platform::Windows);
    install.advance(Event::Begin);
    install.advance(text(HELLO));
    install.advance(Event::Done);
    assert_eq!(
        install.advance(Event::Done),
        Action::ReadManifest { path: "C:\\ProgramData\\tpi\\packages".to_string() }
    );
    assert_eq!(
        install.advance(text("http://x/a.srb\n")),
        Action::WriteManifest {
            path: "C:\\ProgramData\\tpi\\packages".to_string(),
            contents: "http://x/a.srb\n./hello.srb\n".to_string(),
        }
    );
    assert_eq!(install.advance(Event::Done), Action::Succeed);
}

#[test]
fn install_of_a_registry_name_fetches_and_records_nothing() {
    let mut install = install_package("foo", Platform::Unix);
    assert_eq!(
        install.advance(Event::Begin),
        Action::Fetch {
            url: "https://gleepkg.deno.dev/foo.srb".to_string(),
            accept: "application/sorbet".to_string(),
        }
    );
    assert_eq!(install.advance(text(WITH_DEPS)), run("apt update, apt install x"));
    assert_eq!(install.advance(Event::Done), run("make,make install"));
    assert!(matches!(install.advance(Event::Done), Action::ReadManifest { .. }));
    assert_eq!(install.advance(text("./a.srb\n")), Action::Succeed);
    assert_eq!(install.stage, Stage::Finished);
}

#[test]
fn install_of_a_url_fetches_that_url() {
    let mut install = install_package("https://example.com/tool.srb", Platform::Windows);
    assert_eq!(
        install.advance(Event::Begin),
        Action::Fetch {
            url: "https://example.com/tool.srb".to_string(),
            accept: "application/sorbet".to_string(),
        }
    );
    assert_eq!(install.advance(text(WITH_DEPS)), run("choco install x"));
}

#[test]
fn install_skips_the_manifest_when_the_package_is_recorded() {
    let mut install = install_package("./hello.srb", Platform::Unix);
    install.advance(Event::Begin);
    install.advance(text(HELLO));
    install.advance(Event::Done);
    install.advance(Event::Done);
    assert_eq!(install.advance(text("./hello.srb\n")), Action::Succeed);
}

#[test]
fn a_manifest_that_cannot_be_read_counts_as_empty() {
    let mut install = install_package("./hello.srb", Platform::Unix);
    install.advance(Event::Begin);
    install.advance(text(HELLO));
    install.advance(Event::Done);
    install.advance(Event::Done);
    assert_eq!(
        install.advance(failed("No such file or directory")),
        Action::WriteManifest {
            path: "/var/lib/tpi/packages".to_string(),
            contents: "./hello.srb\n".to_string(),
        }
    );
}

#[test]
fn a_fetched_not_found_body_gives_up() {
    let mut install = install_package("nothing", Platform::Unix);
    install.advance(Event::Begin);
    assert_eq!(install.advance(text("404: Not Found")), Action::GiveUp);
    assert_eq!(install.stage, Stage::Finished);
}

#[test]
fn a_local_descriptor_is_parsed_whatever_it_says() {
    let mut install = install_package("./odd.srb", Platform::Unix);
    install.advance(Event::Begin);
    let odd = "name => not found\nversion => 1\nauthor => a\nunix_deps =>\nwin_deps =>\ncommands => true\nuninstall => true\n";
    assert_eq!(install.advance(text(odd)), run(""));
}

#[test]
fn a_local_package_is_never_fetched() {
    for package in ["./a.srb", ".\\a.srb", "/a.srb", "./http"] {
        let mut install = install_package(package, Platform::Unix);
        let events = vec![
            Event::Begin,
            text(HELLO),
            Event::Done,
            Event::Done,
            text(""),
            Event::Done,
            Event::Begin,
        ];
        for event in events {
            assert!(!matches!(install.advance(event), Action::Fetch { .. }));
        }
    }
}

#[test]
fn a_descriptor_without_a_field_fails() {
    let mut install = install_package("./bad.srb", Platform::Unix);
    install.advance(Event::Begin);
    let action = install.advance(text("name => bad\nversion => 1\n"));
    assert_eq!(
        action,
        Action::Fail {
            failure: Failure::Descriptor { error: DescriptorError::MissingField(Field::Author) },
        }
    );
    assert_eq!(install.stage, Stage::Finished);
}

#[test]
fn a_descriptor_that_cannot_be_read_fails() {
    let mut install = install_package("./gone.srb", Platform::Unix);
    install.advance(Event::Begin);
    assert_eq!(
        install.advance(failed("No such file")),
        Action::Fail { failure: Failure::Read { cause: "No such file".to_string() } }
    );
}

#[test]
fn a_descriptor_that_cannot_be_fetched_fails() {
    let mut install = install_package("foo", Platform::Unix);
    install.advance(Event::Begin);
    assert_eq!(
        install.advance(failed("connection refused")),
        Action::Fail { failure: Failure::Fetch { cause: "connection refused".to_string() } }
    );
}

#[test]
fn failing_dependencies_leave_the_manifest_alone() {
    let mut install = install_package("./hello.srb", Platform::Unix);
    install.advance(Event::Begin);
    install.advance(text(HELLO));
    assert_eq!(
        install.advance(failed("no shell")),
        Action::Fail { failure: Failure::Command { cause: "no shell".to_string() } }
    );
    assert_eq!(install.advance(Event::Done), unexpected());
    assert_eq!(install.advance(text("")), unexpected());
}

#[test]
fn failing_commands_leave_the_manifest_alone() {
    let mut install = install_package("./hello.srb", Platform::Unix);
    install.advance(Event::Begin);
    install.advance(text(HELLO));
    install.advance(Event::Done);
    assert_eq!(
        install.advance(failed("no shell")),
        Action::Fail { failure: Failure::Command { cause: "no shell".to_string() } }
    );
    assert_eq!(install.advance(text("")), unexpected());
}

#[test]
fn a_manifest_that_cannot_be_written_fails() {
    let mut install = install_package("./hello.srb", Platform::Unix);
    install.advance(Event::Begin);
    install.advance(text(HELLO));
    install.advance(Event::Done);
    install.advance(Event::Done);
    install.advance(text(""));
    assert_eq!(
        install.advance(failed("read-only")),
        Action::Fail { failure: Failure::ManifestWrite { cause: "read-only".to_string() } }
    );
}

#[test]
fn events_out_of_turn_end_the_installation() {
    let mut install = install_package("./hello.srb", Platform::Unix);
    assert_eq!(install.advance(Event::Done), unexpected());
    assert_eq!(install.stage, Stage::Finished);
    assert_eq!(install.advance(Event::Begin), unexpected());

    let mut install = install_package("./hello.srb", Platform::Unix);
    install.advance(Event::Begin);
    assert_eq!(install.advance(Event::Done), unexpected());

    let mut install = install_package("./hello.srb", Platform::Unix);
    install.advance(Event::Begin);
    install.advance(text(HELLO));
    assert_eq!(install.advance(text("again")), unexpected());

    let mut install = install_package("./hello.srb", Platform::Unix);
    install.advance(Event::Begin);
    install.advance(text(HELLO));
    install.advance(Event::Done);
    install.advance(Event::Done);
    assert_eq!(install.advance(Event::Done), unexpected());
}

#[test]
fn final_actions() {
    assert!(Action::Succeed.is_final());
    assert!(Action::GiveUp.is_final());
    assert!(unexpected().is_final());
    assert!(!run("").is_final());
    assert!(!Action::ReadManifest { path: String::new() }.is_final());
    assert!(!Action::ReadDescriptor { path: String::new() }.is_final());
    assert!(!Action::Fetch { url: String::new(), accept: String::new() }.is_final());
    assert!(!Action::WriteManifest { path: String::new(), contents: String::new() }.is_final());
}

#[test]
fn failure_messages() {
    let cause = "boom".to_string();
    assert_eq!(Failure::Fetch { cause: cause.clone() }.message(), "boom");
    assert_eq!(Failure::Read { cause: cause.clone() }.message(), "Error reading file!: boom");
    assert_eq!(
        Failure::Command { cause: cause.clone() }.message(),
        "Failed to execute command: boom"
    );
    assert_eq!(
        Failure::ManifestWrite { cause: cause.clone() }.message(),
        "Failed to update package list!: boom"
    );
    assert_eq!(
        Failure::Descriptor { error: DescriptorError::MissingField(Field::Commands) }.message(),
        "Package has no commands!"
    );
    assert_eq!(Failure::Unexpected.message(), "Unexpected event");
}
