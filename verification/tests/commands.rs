use tpi::commands::{shell_for, split_commands};
use tpi::platform::Platform;

#[test]
fn commands_on_one_line_run_left_to_right() {
    assert_eq!(split_commands("touch a, touch b"), vec!["touch a", "touch b"]);
}

#[test]
fn lines_run_top_to_bottom() {
    assert_eq!(
        split_commands("echo 1, echo 2\necho 3\n\n  echo 4 ,echo 5"),
        vec!["echo 1", "echo 2", "echo 3", "echo 4", "echo 5"]
    );
}

#[test]
fn empty_pieces_are_no_commands() {
    assert_eq!(split_commands(""), Vec::<String>::new());
    assert_eq!(split_commands("\n\n"), Vec::<String>::new());
    assert_eq!(split_commands(" , ,\t,"), Vec::<String>::new());
    assert_eq!(split_commands(",echo a,, echo b,"), vec!["echo a", "echo b"]);
}

#[test]
fn carriage_returns_do_not_reach_the_commands() {
    assert_eq!(split_commands("echo a\r\necho b\r\n"), vec!["echo a", "echo b"]);
}

#[test]
fn the_same_command_may_come_twice() {
    assert_eq!(split_commands("make, make"), vec!["make", "make"]);
}

#[test]
fn shell_of_each_platform() {
    let unix = shell_for(Platform::Unix);
    assert_eq!(unix.program, "sh");
    assert_eq!(unix.flag, "-c");
    let windows = shell_for(Platform::Windows);
    assert_eq!(windows.program, "powershell.exe");
    assert_eq!(windows.flag, "-Command");
}
