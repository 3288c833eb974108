use tpi::descriptor::{
    descriptor_from_entries, find_value, is_descriptor_reference, parse_package, DescriptorError,
    Field, PackageDescriptor,
};
use tpi::platform::Platform;

const FULL: &str = "name => hello\nversion => 1.2.3\nauthor => someone\nunix_deps => apt install x\nwin_deps => choco install x\ncommands => echo hello\nuninstall => echo bye\n";

fn entry(key: &str, value: &str) -> (String, String) {
    (key.to_string(), value.to_string())
}

fn without(field: &str) -> String {
    FULL.lines()
        .filter(|line| !line.starts_with(field))
        .map(|line| format!("{}\n", line))
        .collect()
}

#[test]
fn parses_every_required_field() {
    let descriptor = parse_package(FULL).unwrap();
    assert_eq!(
        descriptor,
        PackageDescriptor {
            name: "hello".to_string(),
            version: "1.2.3".to_string(),
            author: "someone".to_string(),
            unix_deps: "apt install x".to_string(),
            win_deps: "choco install x".to_string(),
            commands: "echo hello".to_string(),
            uninstall: "echo bye".to_string(),
        }
    );
}

#[test]
fn continuation_lines_join_with_commas() {
    let text = "name => n\nversion => v\nauthor => a\nunix_deps =>\nwin_deps =>\ncommands => touch a\n> touch b\n> touch c\nuninstall => rm a\n";
    let descriptor = parse_package(text).unwrap();
    assert_eq!(descriptor.commands, "touch a,touch b,touch c");
    assert_eq!(descriptor.unix_deps, "");
    assert_eq!(descriptor.win_deps, "");
}

#[test]
fn dependencies_follow_the_platform() {
    let descriptor = parse_package(FULL).unwrap();
    assert_eq!(descriptor.dependencies(Platform::Unix), "apt install x");
    assert_eq!(descriptor.dependencies(Platform::Windows), "choco install x");
}

#[test]
fn missing_name_is_reported() {
    assert_eq!(parse_package(&without("name")), Err(DescriptorError::MissingField(Field::Name)));
}

#[test]
fn missing_version_is_reported() {
    assert_eq!(
        parse_package(&without("version")),
        Err(DescriptorError::MissingField(Field::Version))
    );
}

#[test]
fn missing_author_is_reported() {
    assert_eq!(
        parse_package(&without("author")),
        Err(DescriptorError::MissingField(Field::Author))
    );
}

#[test]
fn missing_unix_deps_is_reported() {
    assert_eq!(
        parse_package(&without("unix_deps")),
        Err(DescriptorError::MissingField(Field::UnixDeps))
    );
}

#[test]
fn missing_win_deps_is_reported() {
    assert_eq!(
        parse_package(&without("win_deps")),
        Err(DescriptorError::MissingField(Field::WinDeps))
    );
}

#[test]
fn missing_commands_is_reported() {
    assert_eq!(
        parse_package(&without("commands")),
        Err(DescriptorError::MissingField(Field::Commands))
    );
}

#[test]
fn missing_uninstall_is_reported() {
    assert_eq!(
        parse_package(&without("uninstall")),
        Err(DescriptorError::MissingField(Field::Uninstall))
    );
}

#[test]
fn the_first_missing_field_is_the_one_reported() {
    assert_eq!(parse_package(""), Err(DescriptorError::MissingField(Field::Name)));
    assert_eq!(
        parse_package("name => n\nuninstall => u\n"),
        Err(DescriptorError::MissingField(Field::Version))
    );
}

#[test]
fn error_message_names_the_field() {
    assert_eq!(DescriptorError::MissingField(Field::Name).message(), "Package has no name!");
    assert_eq!(
        DescriptorError::MissingField(Field::UnixDeps).message(),
        "Package has no unix_deps!"
    );
    assert_eq!(
        DescriptorError::MissingField(Field::Uninstall).message(),
        "Package has no uninstall!"
    );
}

#[test]
fn field_names() {
    assert_eq!(Field::Name.name(), "name");
    assert_eq!(Field::Version.name(), "version");
    assert_eq!(Field::Author.name(), "author");
    assert_eq!(Field::UnixDeps.name(), "unix_deps");
    assert_eq!(Field::WinDeps.name(), "win_deps");
    assert_eq!(Field::Commands.name(), "commands");
    assert_eq!(Field::Uninstall.name(), "uninstall");
}

#[test]
fn find_value_takes_the_first_match() {
    let entries = vec![entry("a", "1"), entry("b", "2"), entry("a", "3")];
    assert_eq!(find_value(&entries, "a"), Some("1".to_string()));
    assert_eq!(find_value(&entries, "b"), Some("2".to_string()));
    assert_eq!(find_value(&entries, "c"), None);
    assert_eq!(find_value(&Vec::new(), "a"), None);
}

#[test]
fn descriptor_from_entries_in_any_order() {
    let entries = vec![
        entry("uninstall", "u"),
        entry("commands", "c"),
        entry("win_deps", "w"),
        entry("unix_deps", "x"),
        entry("author", "a"),
        entry("version", "v"),
        entry("name", "n"),
        entry("extra", "ignored"),
    ];
    let descriptor = descriptor_from_entries(&entries).unwrap();
    assert_eq!(descriptor.name, "n");
    assert_eq!(descriptor.version, "v");
    assert_eq!(descriptor.author, "a");
    assert_eq!(descriptor.unix_deps, "x");
    assert_eq!(descriptor.win_deps, "w");
    assert_eq!(descriptor.commands, "c");
    assert_eq!(descriptor.uninstall, "u");
}

#[test]
fn descriptor_from_entries_reports_the_gap() {
    let entries = vec![entry("name", "n"), entry("version", "v")];
    assert_eq!(
        descriptor_from_entries(&entries),
        Err(DescriptorError::MissingField(Field::Author))
    );
}

#[test]
fn descriptor_references_end_in_a_descriptor_extension() {
    assert!(is_descriptor_reference("pkg.srb"));
    assert!(is_descriptor_reference("./dir/pkg.sorbet"));
    assert!(is_descriptor_reference(".srb"));
    assert!(!is_descriptor_reference("pkg"));
    assert!(!is_descriptor_reference("pkg.srb.txt"));
    assert!(!is_descriptor_reference("pkg.SRB"));
    assert!(!is_descriptor_reference(""));
}
