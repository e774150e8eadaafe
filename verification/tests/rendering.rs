use cargo_slim::attribution::{
    cargo_bloat_arguments, cargo_bloat_failure_message, crate_attribution, CargoBloatCrate,
    CargoBloatCrateOutput,
};
use cargo_slim::cargo::{
    CargoReport, LockfileReport, PackageReport, ProfileValue, ReleaseProfileReport,
};
use cargo_slim::diff::diff_paths;
use cargo_slim::inspect::inspect_path;
use cargo_slim::limit::{parse_section_limit, parse_usize};
use cargo_slim::object_report::{BinaryReport, ObjectReport, SectionReport};
use cargo_slim::render::{
    render_attribution_report, render_diff_report, render_release_profile, render_text_report,
};

fn object(sections: &[(&str, u64, u64)], omitted: usize) -> ObjectReport {
    ObjectReport {
        format: "Elf".to_string(),
        architecture: "X86_64".to_string(),
        endianness: "Little".to_string(),
        entry: 0x7b20,
        has_debug_symbols: false,
        total_sections: sections.len() + omitted,
        sections_omitted: omitted,
        sections: sections
            .iter()
            .map(|(n, a, s)| SectionReport { name: n.to_string(), address: *a, size_bytes: *s })
            .collect(),
    }
}

#[test]
fn text_report_for_an_object() {
    let binary = BinaryReport {
        path: "target/release/my-binary".to_string(),
        file_size_bytes: 4218880,
        object: Some(object(&[(".text", 0x7b20, 383104), (".rodata", 0x65fa0, 65440)], 3)),
    };
    let report = inspect_path(binary, None);
    let lines = render_text_report(&report, "4.02");
    assert_eq!(
        lines,
        vec![
            "path: target/release/my-binary",
            "size: 4218880 bytes (4.02 MiB)",
            "object: Elf",
            "architecture: X86_64",
            "endianness: Little",
            "entry: 0x7b20",
            "debug symbols: no",
            "sections:",
            "  .text: 383104 bytes at 0x7b20",
            "  .rodata: 65440 bytes at 0x65fa0",
            "  ... 3 more sections omitted",
        ]
    );
}

#[test]
fn text_report_for_a_non_object_with_cargo_context() {
    let binary = BinaryReport { path: "notes.txt".to_string(), file_size_bytes: 12, object: None };
    let cargo = CargoReport {
        manifest_path: "/p/Cargo.toml".to_string(),
        package_root: "/p".to_string(),
        workspace_root: "/p".to_string(),
        package: Some(PackageReport {
            name: "fixture-app".to_string(),
            version: "0.1.0".to_string(),
            edition: Some("2021".to_string()),
        }),
        release_profile: ReleaseProfileReport {
            profile_manifest_path: "/p/Cargo.toml".to_string(),
            opt_level: Some(ProfileValue::String("z".to_string())),
            debug: Some(ProfileValue::Bool(false)),
            lto: Some(ProfileValue::String("thin".to_string())),
            codegen_units: Some(1),
            panic: Some("abort".to_string()),
            strip: Some(ProfileValue::String("symbols".to_string())),
        },
        lockfile: Some(LockfileReport { path: "/p/Cargo.lock".to_string(), package_count: 2, packages: vec![] }),
        direct_dependencies: vec![],
    };
    let report = inspect_path(binary, Some(cargo));
    let lines = render_text_report(&report, "0.00");
    assert_eq!(
        lines,
        vec![
            "path: notes.txt",
            "size: 12 bytes (0.00 MiB)",
            "object: not recognized",
            "cargo:",
            "  manifest: /p/Cargo.toml",
            "  package root: /p",
            "  workspace root: /p",
            "  package: fixture-app 0.1.0 (edition 2021)",
            "  lockfile: /p/Cargo.lock (2 packages)",
            "  release profile: /p/Cargo.toml",
            "    strip: symbols",
            "    debug: false",
            "    lto: thin",
            "    codegen-units: 1",
            "    panic: abort",
            "    opt-level: z",
        ]
    );
    assert!(!lines.iter().any(|l| l.starts_with("sections:")));
}

#[test]
fn text_report_lists_numbered_suggestions() {
    let binary = BinaryReport { path: "a".to_string(), file_size_bytes: 1, object: None };
    let cargo = CargoReport {
        manifest_path: "/p/Cargo.toml".to_string(),
        package_root: "/p".to_string(),
        workspace_root: "/p".to_string(),
        package: None,
        release_profile: ReleaseProfileReport {
            profile_manifest_path: "/p/Cargo.toml".to_string(),
            opt_level: Some(ProfileValue::String("z".to_string())),
            debug: None,
            lto: Some(ProfileValue::String("thin".to_string())),
            codegen_units: Some(1),
            panic: Some("abort".to_string()),
            strip: None,
        },
        lockfile: None,
        direct_dependencies: vec![],
    };
    let report = inspect_path(binary, Some(cargo));
    let lines = render_text_report(&report, "0.00");
    let tail: Vec<&str> = lines.iter().skip(lines.len() - 6).map(|s| s.as_str()).collect();
    assert_eq!(
        tail,
        vec![
            "suggestions:",
            "  1. Strip symbols from release binaries",
            "     confidence: medium",
            "     evidence: [profile.release].strip is not set.",
            "     tradeoff: Stripping symbols makes ad hoc debugging harder unless symbols are preserved separately.",
            "     action: Set [profile.release] strip = \"symbols\" or strip = true, then inspect the resulting binary.",
        ]
    );
    assert!(lines.contains(&"  lockfile: not found".to_string()));
}

#[test]
fn diff_report_lines() {
    let old = BinaryReport {
        path: "old".to_string(),
        file_size_bytes: 100,
        object: Some(object(&[(".text", 0, 60), (".data", 0, 40)], 0)),
    };
    let new = BinaryReport {
        path: "new".to_string(),
        file_size_bytes: 150,
        object: Some(object(&[(".text", 0, 110), (".data", 0, 40)], 0)),
    };
    let report = diff_paths(&old, &new);
    let lines = render_diff_report(&report, "0.00", "0.00", "+0.00");
    assert_eq!(
        lines,
        vec![
            "old: old",
            "  size: 100 bytes (0.00 MiB)",
            "  object: Elf X86_64 Little",
            "  sections: 2",
            "new: new",
            "  size: 150 bytes (0.00 MiB)",
            "  object: Elf X86_64 Little",
            "  sections: 2",
            "file size delta: +50 bytes (+0.00 MiB)",
            "section deltas:",
            "  .text: +50 bytes (60 -> 110, changed)",
        ]
    );
}

#[test]
fn diff_report_without_objects() {
    let a = BinaryReport { path: "a".to_string(), file_size_bytes: 10, object: None };
    let b = BinaryReport { path: "b".to_string(), file_size_bytes: 5, object: None };
    let lines = render_diff_report(&diff_paths(&a, &b), "0.00", "0.00", "-0.00");
    assert_eq!(lines[2], "  object: not recognized");
    assert_eq!(lines[6], "file size delta: -5 bytes (-0.00 MiB)");
    assert_eq!(lines[7], "section deltas: unavailable (neither input is a recognized object)");
    let c = BinaryReport { path: "c".to_string(), file_size_bytes: 5, object: Some(object(&[], 0)) };
    let lines = render_diff_report(&diff_paths(&a, &c), "0.00", "0.00", "-0.00");
    assert_eq!(lines.last().unwrap(), "section deltas: none");
}

#[test]
fn attribution_report_and_limit() {
    let parsed = CargoBloatCrateOutput {
        file_size: 2048,
        text_section_size: 1024,
        crates: vec![
            CargoBloatCrate { name: "std".to_string(), size: 600 },
            CargoBloatCrate { name: "app".to_string(), size: 300 },
            CargoBloatCrate { name: "serde".to_string(), size: 124 },
        ],
    };
    let mut report = crate_attribution("/p/Cargo.toml".to_string(), "/p".to_string(), parsed);
    assert_eq!(report.tool, "cargo-bloat");
    assert_eq!(report.total_crates, 3);
    report.apply_crate_limit(Some(2));
    assert_eq!(report.crates_omitted, 1);
    let lines = render_attribution_report(&report, "0.00", "0.00");
    assert_eq!(
        lines,
        vec![
            "manifest: /p/Cargo.toml",
            "package root: /p",
            "tool: cargo-bloat",
            "scope: .text section crate attribution from cargo-bloat --crates",
            "file size: 2048 bytes (0.00 MiB)",
            ".text size: 1024 bytes (0.00 MiB)",
            "crate attribution:",
            "  std: 600 bytes",
            "  app: 300 bytes",
            "  ... 1 more crates omitted",
        ]
    );
}

#[test]
fn cargo_bloat_command_line() {
    assert_eq!(
        cargo_bloat_arguments(&"cargo".to_string(), &Some("cargoslim".to_string())),
        vec!["bloat", "--release", "--crates", "--message-format", "json", "-n", "0", "--bin", "cargoslim"]
    );
    assert_eq!(
        cargo_bloat_arguments(&"/usr/bin/cargo-bloat".to_string(), &None),
        vec!["--release", "--crates", "--message-format", "json", "-n", "0"]
    );
}

#[test]
fn cargo_bloat_failures() {
    assert_eq!(cargo_bloat_failure_message(""), "cargo-bloat failed without diagnostic output");
    assert_eq!(cargo_bloat_failure_message("no such bin"), "cargo-bloat failed: no such bin");
}

#[test]
fn decimal_counts() {
    assert_eq!(parse_usize("42"), Some(42));
    assert_eq!(parse_usize("+7"), Some(7));
    assert_eq!(parse_usize("007"), Some(7));
    assert_eq!(parse_usize(""), None);
    assert_eq!(parse_usize("+"), None);
    assert_eq!(parse_usize("-1"), None);
    assert_eq!(parse_usize(" 1"), None);
    assert_eq!(parse_usize("1_000"), None);
    assert_eq!(parse_usize(&usize::MAX.to_string()), Some(usize::MAX));
    assert_eq!(parse_usize("99999999999999999999999"), None);
    for text in ["0", "12", "+3", "x", "", "-0", "٣"] {
        assert_eq!(parse_usize(text), text.parse::<usize>().ok());
    }
}

#[test]
fn section_limit_values() {
    assert_eq!(parse_section_limit("5"), Ok(5));
    assert_eq!(parse_section_limit("0"), Err("--limit must be greater than zero".to_string()));
    assert_eq!(parse_section_limit("many"), Err("invalid --limit value 'many'".to_string()));
}

#[test]
fn release_profile_lines_follow_the_documented_order() {
    let profile = ReleaseProfileReport {
        profile_manifest_path: "/path/to/project/Cargo.toml".to_string(),
        opt_level: Some(ProfileValue::String("z".to_string())),
        debug: Some(ProfileValue::Bool(false)),
        lto: Some(ProfileValue::String("thin".to_string())),
        codegen_units: Some(1),
        panic: Some("abort".to_string()),
        strip: Some(ProfileValue::String("symbols".to_string())),
    };
    let mut lines = vec!["before".to_string()];
    render_release_profile(&mut lines, &profile);
    assert_eq!(
        lines,
        vec![
            "before",
            "  release profile: /path/to/project/Cargo.toml",
            "    strip: symbols",
            "    debug: false",
            "    lto: thin",
            "    codegen-units: 1",
            "    panic: abort",
            "    opt-level: z",
        ]
    );
}
