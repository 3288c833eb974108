use tpi::manifest::{get_package_list, installed, record, remove};
use tpi::platform::Platform;

#[test]
fn manifest_path_on_unix() {
    assert_eq!(get_package_list(Platform::Unix), "/var/lib/tpi/packages");
}

#[test]
fn manifest_path_on_windows() {
    assert_eq!(get_package_list(Platform::Windows), "C:\\ProgramData\\tpi\\packages");
}

#[test]
fn record_into_an_empty_manifest() {
    assert_eq!(record("", "./a.srb"), Some("./a.srb\n".to_string()));
}

#[test]
fn record_appends_a_line() {
    assert_eq!(record("./a.srb\n", "./b.sorbet"), Some("./a.srb\n./b.sorbet\n".to_string()));
    assert_eq!(record("./a.srb", "./b.srb"), Some("./a.srb\n./b.srb\n".to_string()));
}

#[test]
fn record_trims_what_was_there() {
    assert_eq!(record("\n ./a.srb \n\n", "./b.srb"), Some("./a.srb\n./b.srb\n".to_string()));
    assert_eq!(record("\n", "./b.srb"), Some("\n./b.srb\n".to_string()));
}

#[test]
fn record_skips_bare_names() {
    assert_eq!(record("", "foo"), None);
    assert_eq!(record("./a.srb\n", "foo"), None);
}

#[test]
fn record_skips_what_is_already_there() {
    assert_eq!(record("./a.srb\n", "./a.srb"), None);
}

#[test]
fn record_goes_by_containment() {
    assert_eq!(record("./ab.srb\n", "b.srb"), None);
    assert_eq!(record("http://x/a.srb.bak\n", "http://x/a.srb"), None);
}

#[test]
fn record_twice_is_record_once() {
    let once = record("./a.srb\n", "./b.srb").unwrap();
    assert_eq!(record(&once, "./b.srb"), None);
    let first = record("", "./b.srb").unwrap();
    assert_eq!(record(&first, "./b.srb"), None);
}

#[test]
fn remove_drops_every_equal_line() {
    assert_eq!(remove("a\nb\na\nc\n", "a"), "b\nc\n");
    assert_eq!(remove("a\nb\n", "b"), "a\n");
}

#[test]
fn remove_goes_by_whole_lines() {
    assert_eq!(remove("ab\nb\n", "b"), "ab\n");
    assert_eq!(remove("ab\n", "a"), "ab\n");
}

#[test]
fn remove_of_an_absent_line_changes_nothing() {
    assert_eq!(remove("a\nb\n", "c"), "a\nb\n");
}

#[test]
fn remove_leaves_a_line_feed_where_nothing_is_left() {
    assert_eq!(remove("", "a"), "\n");
    assert_eq!(remove("a\n", "a"), "\n");
    assert_eq!(remove("\n", "a"), "\n");
}

#[test]
fn remove_ends_the_last_line() {
    assert_eq!(remove("a\nb", "c"), "a\nb\n");
    assert_eq!(remove("a\r\nb\r\n", "c"), "a\nb\n");
}

#[test]
fn record_then_remove_restores_the_manifest() {
    for before in ["./a.srb\n", "./a.srb\nhttp://x/b.sorbet\n", "\n"] {
        let written = record(before, "./new.srb").unwrap();
        assert_eq!(remove(&written, "./new.srb"), before);
    }
}

#[test]
fn record_then_remove_on_an_empty_manifest_records_nothing() {
    let written = record("", "./new.srb").unwrap();
    let after = remove(&written, "./new.srb");
    assert_eq!(after, "\n");
    assert_eq!(installed(&after), installed(""));
}

#[test]
fn installed_lists_the_lines_that_are_not_empty() {
    assert_eq!(installed("./a.srb\n\nhttp://x/b.srb\n"), vec!["./a.srb", "http://x/b.srb"]);
    assert_eq!(installed(""), Vec::<String>::new());
    assert_eq!(installed("\n\n"), Vec::<String>::new());
    assert_eq!(installed("a"), vec!["a"]);
}

#[test]
fn record_writes_the_trimmed_content_and_the_package() {
    for content in ["x", "x\n", "  x\ny  \n\n", "\n", "a.srb\r\n"] {
        let expected = format!("{}\n{}\n", content.trim(), "./new.srb");
        assert_eq!(record(content, "./new.srb"), Some(expected));
    }
}

#[test]
fn remove_writes_the_other_lines() {
    for content in ["", "x", "x\ny\n", "y\nx\r\ny\n\n", "\n"] {
        let kept: Vec<&str> = content.lines().filter(|line| *line != "y").collect();
        assert_eq!(remove(content, "y"), format!("{}\n", kept.join("\n")));
    }
}
