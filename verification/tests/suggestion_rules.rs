use cargo_slim::cargo::{
    CargoReport, LockfilePackageReport, LockfileReport, ManifestDependencyReport, ProfileValue,
    ReleaseProfileReport,
};
use cargo_slim::object_report::ObjectReport;
use cargo_slim::suggestions::{
    build_suggestions, opt_level_favors_speed, profile_setting_evidence, profile_value_disabled,
    profile_value_enabled, SuggestionConfidence,
};

fn profile(
    opt_level: Option<ProfileValue>,
    debug: Option<ProfileValue>,
    lto: Option<ProfileValue>,
    codegen_units: Option<u64>,
    panic: Option<&str>,
    strip: Option<ProfileValue>,
) -> ReleaseProfileReport {
    ReleaseProfileReport {
        profile_manifest_path: "/p/Cargo.toml".to_string(),
        opt_level,
        debug,
        lto,
        codegen_units,
        panic: panic.map(|p| p.to_string()),
        strip,
    }
}

fn text(v: &str) -> Option<ProfileValue> {
    Some(ProfileValue::String(v.to_string()))
}

fn lock(packages: &[(&str, &str)]) -> LockfileReport {
    LockfileReport {
        path: "/p/Cargo.lock".to_string(),
        package_count: packages.len(),
        packages: packages
            .iter()
            .map(|(n, v)| LockfilePackageReport { name: n.to_string(), version: v.to_string(), source: None })
            .collect(),
    }
}

fn dep(name: &str, default_features: bool) -> ManifestDependencyReport {
    ManifestDependencyReport { name: name.to_string(), default_features }
}

fn cargo(release_profile: ReleaseProfileReport, lockfile: Option<LockfileReport>, deps: Vec<ManifestDependencyReport>) -> CargoReport {
    CargoReport {
        manifest_path: "/p/Cargo.toml".to_string(),
        package_root: "/p".to_string(),
        workspace_root: "/p".to_string(),
        package: None,
        release_profile,
        lockfile,
        direct_dependencies: deps,
    }
}

fn size_focused() -> ReleaseProfileReport {
    profile(text("z"), Some(ProfileValue::Bool(false)), text("thin"), Some(1), Some("abort"), text("symbols"))
}

#[test]
fn size_focused_project_gets_no_suggestions() {
    let c = cargo(size_focused(), Some(lock(&[("fixture-app", "0.1.0"), ("serde", "1.0.0")])), vec![dep("serde", false)]);
    assert!(build_suggestions(None, Some(&c)).is_empty());
}

#[test]
fn no_cargo_context_no_suggestions() {
    assert!(build_suggestions(None, None).is_empty());
}

#[test]
fn conservative_suggestions_with_evidence() {
    let c = cargo(
        profile(None, Some(ProfileValue::Bool(true)), None, None, None, None),
        Some(lock(&[("duplicate", "2.0.0"), ("app", "0.1.0"), ("duplicate", "1.0.0"), ("duplicate", "1.0.0")])),
        vec![dep("regex", true), dep("serde", true), dep("tiny", false)],
    );
    let suggestions = build_suggestions(None, Some(&c));
    let find = |title: &str| suggestions.iter().find(|s| s.title == title).unwrap_or_else(|| panic!("missing {title}"));

    let debug = find("Remove release debug information");
    assert_eq!(debug.confidence, SuggestionConfidence::High);
    assert_eq!(debug.evidence, "[profile.release].debug is true.");

    let duplicates = find("Review duplicate dependency versions");
    assert_eq!(duplicates.confidence, SuggestionConfidence::High);
    assert_eq!(duplicates.evidence, "Cargo.lock contains multiple versions for: duplicate (1.0.0, 2.0.0).");

    let defaults = find("Audit direct dependency default features");
    assert_eq!(defaults.confidence, SuggestionConfidence::Low);
    assert_eq!(
        defaults.evidence,
        "Direct dependencies with default features enabled or unspecified: regex, serde."
    );

    let strip = find("Strip symbols from release binaries");
    assert_eq!(strip.evidence, "[profile.release].strip is not set.");
    assert_eq!(strip.confidence, SuggestionConfidence::Medium);
    let codegen = find("Compare codegen-units = 1");
    assert_eq!(codegen.evidence, "[profile.release].codegen-units is not set.");
    let panic = find("Evaluate panic = \"abort\"");
    assert_eq!(panic.evidence, "[profile.release].panic is not set.");
    let opt = find("Compare a size-focused opt-level");
    assert_eq!(opt.confidence, SuggestionConfidence::Low);
    assert_eq!(opt.evidence, "[profile.release].opt-level is not set.");
    assert_eq!(suggestions.len(), 8);
}

#[test]
fn suggestions_are_ordered_by_confidence_stably() {
    let c = cargo(
        profile(None, Some(ProfileValue::Bool(true)), None, None, None, None),
        Some(lock(&[("d", "1"), ("d", "2")])),
        vec![dep("regex", true)],
    );
    let suggestions = build_suggestions(None, Some(&c));
    let titles: Vec<&str> = suggestions.iter().map(|s| s.title.as_str()).collect();
    assert_eq!(
        titles,
        vec![
            "Remove release debug information",
            "Review duplicate dependency versions",
            "Strip symbols from release binaries",
            "Compare release builds with LTO enabled",
            "Compare codegen-units = 1",
            "Evaluate panic = \"abort\"",
            "Compare a size-focused opt-level",
            "Audit direct dependency default features",
        ]
    );
    for pair in suggestions.windows(2) {
        assert!(pair[0].confidence.rank() <= pair[1].confidence.rank());
    }
}

#[test]
fn debug_sections_of_the_object_are_evidence() {
    let object = ObjectReport {
        format: "Elf".to_string(),
        architecture: "X86_64".to_string(),
        endianness: "Little".to_string(),
        entry: 0,
        has_debug_symbols: true,
        total_sections: 0,
        sections_omitted: 0,
        sections: vec![],
    };
    let with_setting = cargo(size_focused(), None, vec![]);
    let s = build_suggestions(Some(&object), Some(&with_setting));
    assert_eq!(s.len(), 1);
    assert_eq!(
        s[0].evidence,
        "The inspected object has debug sections and [profile.release].debug is false."
    );
    let without = cargo(profile(text("z"), None, text("thin"), Some(1), Some("abort"), text("symbols")), None, vec![]);
    let s = build_suggestions(Some(&object), Some(&without));
    assert_eq!(s[0].evidence, "The inspected object has debug sections.");
}

#[test]
fn settings_that_already_shrink_are_left_alone() {
    let c = cargo(
        profile(Some(ProfileValue::Integer(1)), text("none"), Some(ProfileValue::Bool(true)), Some(1), Some("abort"), Some(ProfileValue::Bool(true))),
        None,
        vec![],
    );
    assert!(build_suggestions(None, Some(&c)).is_empty());
    let c = cargo(
        profile(Some(ProfileValue::Integer(3)), None, text("off"), Some(16), Some("unwind"), Some(ProfileValue::Integer(0))),
        None,
        vec![],
    );
    let s = build_suggestions(None, Some(&c));
    let evidence: Vec<&str> = s.iter().map(|x| x.evidence.as_str()).collect();
    assert_eq!(
        evidence,
        vec![
            "[profile.release].strip is 0.",
            "[profile.release].codegen-units is 16.",
            "[profile.release].panic is unwind.",
            "[profile.release].opt-level is 3.",
        ]
    );
}

#[test]
fn profile_value_tests() {
    assert!(profile_value_enabled(&ProfileValue::Bool(true)));
    assert!(profile_value_enabled(&ProfileValue::Integer(2)));
    assert!(!profile_value_enabled(&ProfileValue::Integer(-1)));
    assert!(profile_value_enabled(&ProfileValue::String("full".to_string())));
    assert!(!profile_value_enabled(&ProfileValue::String("none".to_string())));
    assert!(profile_value_disabled(&ProfileValue::String("0".to_string())));
    assert!(profile_value_disabled(&ProfileValue::Integer(0)));
    assert!(!profile_value_disabled(&ProfileValue::Integer(-1)));
    assert!(opt_level_favors_speed(&ProfileValue::String("3".to_string())));
    assert!(!opt_level_favors_speed(&ProfileValue::String("s".to_string())));
    assert!(opt_level_favors_speed(&ProfileValue::Integer(2)));
    assert!(!opt_level_favors_speed(&ProfileValue::Bool(true)));
}

#[test]
fn enabled_is_not_disabled_outside_negative_integers() {
    let values = vec![
        ProfileValue::Bool(true),
        ProfileValue::Bool(false),
        ProfileValue::Integer(0),
        ProfileValue::Integer(7),
        ProfileValue::String("false".to_string()),
        ProfileValue::String("thin".to_string()),
    ];
    for v in &values {
        assert_eq!(profile_value_enabled(v), !profile_value_disabled(v));
    }
}

#[test]
fn setting_evidence_sentences() {
    assert_eq!(profile_setting_evidence("lto", Some(&ProfileValue::Bool(false)), "is not set"), "[profile.release].lto is false.");
    assert_eq!(profile_setting_evidence("lto", None, "is not set"), "[profile.release].lto is not set.");
}

#[test]
fn confidence_names_and_ranks() {
    assert_eq!(SuggestionConfidence::High.as_str(), "high");
    assert_eq!(SuggestionConfidence::Medium.as_str(), "medium");
    assert_eq!(SuggestionConfidence::Low.as_str(), "low");
    assert_eq!(SuggestionConfidence::High.rank(), 0);
    assert_eq!(SuggestionConfidence::Medium.rank(), 1);
    assert_eq!(SuggestionConfidence::Low.rank(), 2);
}
