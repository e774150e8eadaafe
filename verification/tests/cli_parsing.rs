use cargo_slim::cli::{AttributionOptions, Command, DiffOptions, InspectOptions, OutputFormat};
use cargo_slim::diff::byte_delta;

fn args(list: &[&str]) -> Vec<String> {
    list.iter().map(|s| s.to_string()).collect()
}

fn parse(list: &[&str]) -> Result<Command, String> {
    Command::parse(args(list))
}

#[test]
fn calculates_signed_byte_delta() {
    assert_eq!(byte_delta(10, 15), 5);
    assert_eq!(byte_delta(15, 10), -5);
    assert_eq!(byte_delta(10, 10), 0);
}

#[test]
fn parses_inspect_defaults_to_text() {
    let command = parse(&["inspect", "target/release/app"]).unwrap();

    assert_eq!(
        command,
        Command::Inspect(InspectOptions {
            path: "target/release/app".to_string(),
            manifest_path: None,
            output: OutputFormat::Text,
            section_limit: None,
        })
    );
}

#[test]
fn parses_diff_defaults_to_text() {
    let command = parse(&["diff", "old", "new"]).unwrap();

    assert_eq!(
        command,
        Command::Diff(DiffOptions {
            old_path: "old".to_string(),
            new_path: "new".to_string(),
            output: OutputFormat::Text,
            section_limit: None,
        })
    );
}

#[test]
fn parses_attribution_defaults() {
    let command = parse(&["attribution"]).unwrap();

    assert_eq!(
        command,
        Command::Attribution(AttributionOptions {
            manifest_path: "Cargo.toml".to_string(),
            binary_name: None,
            output: OutputFormat::Text,
            crate_limit: Some(20),
        })
    );
}

#[test]
fn parses_attribution_options() {
    let command = parse(&[
        "attribution",
        "--json",
        "--limit=4",
        "--manifest-path",
        "fixtures/Cargo.toml",
        "--bin=cargoslim",
    ])
    .unwrap();

    assert_eq!(
        command,
        Command::Attribution(AttributionOptions {
            manifest_path: "fixtures/Cargo.toml".to_string(),
            binary_name: Some("cargoslim".to_string()),
            output: OutputFormat::Json,
            crate_limit: Some(4),
        })
    );
}

#[test]
fn parses_diff_json_and_section_limit() {
    let command = parse(&["diff", "--json", "--limit=4", "old", "new"]).unwrap();

    assert_eq!(
        command,
        Command::Diff(DiffOptions {
            old_path: "old".to_string(),
            new_path: "new".to_string(),
            output: OutputFormat::Json,
            section_limit: Some(4),
        })
    );
}

#[test]
fn parses_inspect_json_flag() {
    let command = parse(&["inspect", "--json", "target/release/app"]).unwrap();

    assert_eq!(
        command,
        Command::Inspect(InspectOptions {
            path: "target/release/app".to_string(),
            manifest_path: None,
            output: OutputFormat::Json,
            section_limit: None,
        })
    );
}

#[test]
fn parses_inspect_section_limit() {
    let command = parse(&["inspect", "--limit", "5", "target/release/app"]).unwrap();

    assert_eq!(
        command,
        Command::Inspect(InspectOptions {
            path: "target/release/app".to_string(),
            manifest_path: None,
            output: OutputFormat::Text,
            section_limit: Some(5),
        })
    );
}

#[test]
fn parses_inspect_section_limit_equals_form() {
    let command = parse(&["inspect", "--limit=8", "target/release/app"]).unwrap();

    assert_eq!(
        command,
        Command::Inspect(InspectOptions {
            path: "target/release/app".to_string(),
            manifest_path: None,
            output: OutputFormat::Text,
            section_limit: Some(8),
        })
    );
}

#[test]
fn parses_inspect_manifest_path() {
    let command = parse(&[
        "inspect",
        "--manifest-path",
        "Cargo.toml",
        "target/release/app",
    ])
    .unwrap();

    assert_eq!(
        command,
        Command::Inspect(InspectOptions {
            path: "target/release/app".to_string(),
            manifest_path: Some("Cargo.toml".to_string()),
            output: OutputFormat::Text,
            section_limit: None,
        })
    );
}

#[test]
fn parses_inspect_manifest_path_equals_form() {
    let command = parse(&[
        "inspect",
        "--manifest-path=Cargo.toml",
        "target/release/app",
    ])
    .unwrap();

    assert_eq!(
        command,
        Command::Inspect(InspectOptions {
            path: "target/release/app".to_string(),
            manifest_path: Some("Cargo.toml".to_string()),
            output: OutputFormat::Text,
            section_limit: None,
        })
    );
}

#[test]
fn rejects_zero_section_limit() {
    let error = parse(&["inspect", "--limit", "0", "target/release/app"]).unwrap_err();

    assert_eq!(error, "--limit must be greater than zero");
}

#[test]
fn rejects_missing_manifest_path_value() {
    let error = parse(&["inspect", "--manifest-path"]).unwrap_err();

    assert_eq!(error, "--manifest-path requires a value");
}

#[test]
fn rejects_duplicate_inspect_paths() {
    let error = parse(&["inspect", "a", "b"]).unwrap_err();

    assert_eq!(error, "inspect accepts exactly one path");
}

#[test]
fn rejects_missing_diff_paths() {
    let error = parse(&["diff", "old"]).unwrap_err();

    assert_eq!(error, "diff requires two paths");
}

#[test]
fn rejects_extra_diff_paths() {
    let error = parse(&["diff", "old", "new", "extra"]).unwrap_err();

    assert_eq!(error, "diff accepts exactly two paths");
}

const NOT_OBJECT_FIXTURE: &str = "tests/fixtures/not-object.txt";
const BINARY_PATH: &str = "target/debug/cargoslim";

fn assert_inspect_error(list: &[&str], expected: &str) {
    let error = parse(list).unwrap_err();
    assert!(
        error.contains(expected),
        "expected {expected:?} in error: {error}"
    );
}

#[test]
fn inspect_rejects_missing_limit_value() {
    assert_inspect_error(&["inspect", "--limit"], "--limit requires a value");
}

#[test]
fn inspect_rejects_missing_manifest_path_value() {
    assert_inspect_error(
        &["inspect", "--manifest-path"],
        "--manifest-path requires a value",
    );
}

#[test]
fn inspect_rejects_missing_path() {
    assert_inspect_error(&["inspect"], "inspect requires a path");
}

#[test]
fn inspect_rejects_duplicate_paths() {
    assert_inspect_error(
        &["inspect", NOT_OBJECT_FIXTURE, BINARY_PATH],
        "inspect accepts exactly one path",
    );
}

#[test]
fn inspect_rejects_unknown_option() {
    assert_inspect_error(
        &["inspect", "--wat", NOT_OBJECT_FIXTURE],
        "unknown inspect option",
    );
}

#[test]
fn inspect_rejects_bad_limit_value() {
    assert_inspect_error(
        &["inspect", "--limit", "many", NOT_OBJECT_FIXTURE],
        "invalid --limit value 'many'",
    );
}

#[test]
fn inspect_rejects_zero_limit_value() {
    assert_inspect_error(
        &["inspect", "--limit=0", NOT_OBJECT_FIXTURE],
        "--limit must be greater than zero",
    );
}

#[test]
fn help_and_version_words() {
    assert_eq!(parse(&[]).unwrap(), Command::Help);
    assert_eq!(parse(&["-h"]).unwrap(), Command::Help);
    assert_eq!(parse(&["--help"]).unwrap(), Command::Help);
    assert_eq!(parse(&["-V"]).unwrap(), Command::Version);
    assert_eq!(parse(&["--version"]).unwrap(), Command::Version);
    assert_eq!(parse(&["inspect", "a", "--help"]).unwrap(), Command::Help);
    assert_eq!(parse(&["diff", "-h"]).unwrap(), Command::Help);
    assert_eq!(parse(&["attribution", "--help"]).unwrap(), Command::Help);
}

#[test]
fn help_after_an_error_is_not_reached() {
    assert_eq!(parse(&["inspect", "--wat", "--help"]).unwrap_err(), "unknown inspect option '--wat'");
}

#[test]
fn unknown_command() {
    assert_eq!(parse(&["shrink"]).unwrap_err(), "unknown command 'shrink'");
}

#[test]
fn attribution_errors() {
    assert_eq!(parse(&["attribution", "--bin"]).unwrap_err(), "--bin requires a value");
    assert_eq!(parse(&["attribution", "path"]).unwrap_err(), "attribution does not accept positional paths");
    assert_eq!(parse(&["attribution", "-x"]).unwrap_err(), "unknown attribution option '-x'");
    assert_eq!(parse(&["attribution", "--limit", "0"]).unwrap_err(), "--limit must be greater than zero");
}

#[test]
fn diff_errors() {
    assert_eq!(parse(&["diff", "--limit"]).unwrap_err(), "--limit requires a value");
    assert_eq!(parse(&["diff", "--nope", "a", "b"]).unwrap_err(), "unknown diff option '--nope'");
    assert_eq!(parse(&["diff", "--limit=x", "a", "b"]).unwrap_err(), "invalid --limit value 'x'");
}

#[test]
fn later_options_win() {
    let command = parse(&["inspect", "--limit=3", "--limit", "9", "--manifest-path=a", "--manifest-path", "b", "p"]).unwrap();
    assert_eq!(
        command,
        Command::Inspect(InspectOptions {
            path: "p".to_string(),
            manifest_path: Some("b".to_string()),
            output: OutputFormat::Text,
            section_limit: Some(9),
        })
    );
}

#[test]
fn limit_forms_are_equivalent() {
    assert_eq!(
        parse(&["diff", "a", "--limit", "4", "b"]).unwrap(),
        parse(&["diff", "a", "--limit=4", "b"]).unwrap()
    );
}

#[test]
fn default_output_format_is_text() {
    assert_eq!(OutputFormat::default(), OutputFormat::Text);
}
