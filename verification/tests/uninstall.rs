use tpi::action::{Action, Event, Failure, Stage};
use tpi::platform::Platform;
use tpi::uninstall::uninstall_package;

const HELLO: &str = "name => hello\nversion => 1.0\nauthor => me\nunix_deps =>\nwin_deps =>\ncommands => echo hello\nuninstall => rm hello, echo bye\n";

fn text(text: &str) -> Event {
    Event::Text { text: text.to_string() }
}

fn failed(cause: &str) -> Event {
    Event::Failed { cause: cause.to_string() }
}

fn run(list: &str) -> Action {
    Action::Run { list: list.to_string() }
}

fn write(contents: &str) -> Action {
    Action::WriteManifest {
        path: "/var/lib/tpi/packages".to_string(),
        contents: contents.to_string(),
    }
}

#[test]
fn uninstall_of_an_absent_name_completes() {
    let mut uninstall = uninstall_package("foo", Platform::Unix);
    assert_eq!(
        uninstall.advance(Event::Begin),
        Action::ReadManifest { path: "/var/lib/tpi/packages".to_string() }
    );
    assert_eq!(uninstall.advance(text("./a.srb\n./b.srb\n")), write("./a.srb\n./b.srb\n"));
    assert_eq!(
        uninstall.advance(Event::Done),
        Action::Fetch {
            url: "https://gleepkg.deno.dev/foo.srb".to_string(),
            accept: "application/sorbet".to_string(),
        }
    );
    assert_eq!(uninstall.advance(text(HELLO)), run("rm hello, echo bye"));
    assert_eq!(uninstall.descriptor.as_ref().unwrap().author, "me");
    assert_eq!(uninstall.advance(Event::Done), Action::Succeed);
    assert_eq!(uninstall.stage, Stage::Finished);
}

#[test]
fn uninstall_strikes_the_package_from_the_manifest_first() {
    let mut uninstall = uninstall_package("/opt/tool", Platform::Unix);
    assert!(matches!(uninstall.advance(Event::Begin), Action::ReadManifest { .. }));
    assert_eq!(uninstall.advance(text("a\n/opt/tool\nb\n/opt/tool\n")), write("a\nb\n"));
    assert_eq!(
        uninstall.advance(Event::Done),
        Action::ReadDescriptor { path: "/opt/tool".to_string() }
    );
    assert_eq!(
        uninstall.advance(failed("is a directory")),
        Action::Fail { failure: Failure::Read { cause: "is a directory".to_string() } }
    );
}

#[test]
fn uninstall_rewrites_a_manifest_that_cannot_be_read() {
    let mut uninstall = uninstall_package("foo", Platform::Windows);
    assert_eq!(
        uninstall.advance(Event::Begin),
        Action::ReadManifest { path: "C:\\ProgramData\\tpi\\packages".to_string() }
    );
    assert_eq!(
        uninstall.advance(failed("not there")),
        Action::WriteManifest {
            path: "C:\\ProgramData\\tpi\\packages".to_string(),
            contents: "\n".to_string(),
        }
    );
}

#[test]
fn uninstall_of_a_descriptor_reference_leaves_the_manifest_alone() {
    let mut uninstall = uninstall_package("./hello.srb", Platform::Unix);
    assert_eq!(
        uninstall.advance(Event::Begin),
        Action::ReadDescriptor { path: "./hello.srb".to_string() }
    );
    assert_eq!(uninstall.advance(text(HELLO)), run("rm hello, echo bye"));
    assert_eq!(uninstall.advance(Event::Done), Action::Succeed);

    let mut uninstall = uninstall_package("http://x/hello.sorbet", Platform::Unix);
    assert_eq!(
        uninstall.advance(Event::Begin),
        Action::Fetch {
            url: "http://x/hello.sorbet".to_string(),
            accept: "application/sorbet".to_string(),
        }
    );
}

#[test]
fn uninstall_stops_when_the_manifest_cannot_be_written() {
    let mut uninstall = uninstall_package("foo", Platform::Unix);
    uninstall.advance(Event::Begin);
    uninstall.advance(text("foo\n"));
    assert_eq!(
        uninstall.advance(failed("read-only")),
        Action::Fail { failure: Failure::ManifestWrite { cause: "read-only".to_string() } }
    );
    assert_eq!(uninstall.stage, Stage::Finished);
}

#[test]
fn failing_uninstall_commands_come_after_the_manifest() {
    let mut uninstall = uninstall_package("foo", Platform::Unix);
    uninstall.advance(Event::Begin);
    assert_eq!(uninstall.advance(text("foo\nbar\n")), write("bar\n"));
    uninstall.advance(Event::Done);
    uninstall.advance(text(HELLO));
    assert_eq!(
        uninstall.advance(failed("no shell")),
        Action::Fail { failure: Failure::Command { cause: "no shell".to_string() } }
    );
}

#[test]
fn uninstall_gives_up_on_a_not_found_body() {
    let mut uninstall = uninstall_package("foo", Platform::Unix);
    uninstall.advance(Event::Begin);
    uninstall.advance(text(""));
    uninstall.advance(Event::Done);
    assert_eq!(uninstall.advance(text("Not Found")), Action::GiveUp);
}

#[test]
fn uninstall_never_fetches_a_local_package() {
    for package in ["./tool", "/opt/tool", "./tool.srb"] {
        let mut uninstall = uninstall_package(package, Platform::Unix);
        for event in [Event::Begin, text(""), Event::Done, text(HELLO), Event::Done] {
            assert!(!matches!(uninstall.advance(event), Action::Fetch { .. }));
        }
    }
}

#[test]
fn uninstall_events_out_of_turn() {
    let unexpected = Action::Fail { failure: Failure::Unexpected };
    let mut uninstall = uninstall_package("foo", Platform::Unix);
    assert_eq!(uninstall.advance(text("")), unexpected);
    assert_eq!(uninstall.advance(Event::Begin), unexpected);

    let mut uninstall = uninstall_package("foo", Platform::Unix);
    uninstall.advance(Event::Begin);
    assert_eq!(uninstall.advance(Event::Done), unexpected);

    let mut uninstall = uninstall_package("foo", Platform::Unix);
    uninstall.advance(Event::Begin);
    uninstall.advance(text(""));
    assert_eq!(uninstall.advance(text("")), unexpected);

    let mut uninstall = uninstall_package("./a.srb", Platform::Unix);
    uninstall.advance(Event::Begin);
    uninstall.advance(text(HELLO));
    assert_eq!(uninstall.advance(text("")), unexpected);
}
