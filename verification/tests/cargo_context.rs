use cargo_slim::cargo::{
    find_workspace_root, lockfile_from_text, lockfile_report, manifest_declares_workspace,
    text_declares_workspace, workspace_step, WorkspaceStep,
    profile_manifest_is_separate, read_cargo_report, read_direct_dependencies, CargoManifest,
    LockfilePackageReport, ManifestDependencyReport, ManifestPackage, ManifestProfiles,
    ManifestReleaseProfile, ProfileValue, ReleaseProfileReport, TomlValue, WorkspaceProbe,
};

fn s(v: &str) -> TomlValue {
    TomlValue::String(v.to_string())
}

fn table(entries: Vec<(&str, TomlValue)>) -> TomlValue {
    TomlValue::Table(entries.into_iter().map(|(k, v)| (k.to_string(), v)).collect())
}

fn package(name: &str, version: &str) -> TomlValue {
    table(vec![("name", s(name)), ("version", s(version))])
}

#[test]
fn profile_values_from_toml() {
    assert_eq!(ProfileValue::from_toml(&TomlValue::Boolean(true)), Some(ProfileValue::Bool(true)));
    assert_eq!(ProfileValue::from_toml(&TomlValue::Integer(3)), Some(ProfileValue::Integer(3)));
    assert_eq!(ProfileValue::from_toml(&s("z")), Some(ProfileValue::String("z".to_string())));
    assert_eq!(ProfileValue::from_toml(&TomlValue::Float), None);
    assert_eq!(ProfileValue::from_toml(&TomlValue::Array(vec![])), None);
}

#[test]
fn profile_values_display() {
    assert_eq!(ProfileValue::Bool(false).display_string(), "false");
    assert_eq!(ProfileValue::Bool(true).display_string(), "true");
    assert_eq!(ProfileValue::Integer(-42).display_string(), "-42");
    assert_eq!(ProfileValue::Integer(i64::MIN).display_string(), i64::MIN.to_string());
    assert_eq!(ProfileValue::Integer(1234567890).display_string(), "1234567890");
    assert_eq!(ProfileValue::String("thin".to_string()).display_string(), "thin");
}

#[test]
fn lockfile_packages_need_name_and_version() {
    let full = table(vec![
        ("name", s("serde")),
        ("version", s("1.0.0")),
        ("source", s("registry+https://github.com/rust-lang/crates.io-index")),
    ]);
    let p = LockfilePackageReport::from_toml(&full).unwrap();
    assert_eq!(p.name, "serde");
    assert_eq!(p.version, "1.0.0");
    assert!(p.source.is_some());
    let local = LockfilePackageReport::from_toml(&package("app", "0.1.0")).unwrap();
    assert!(local.source.is_none());
    assert!(LockfilePackageReport::from_toml(&table(vec![("name", s("x"))])).is_none());
    assert!(LockfilePackageReport::from_toml(&table(vec![("name", s("x")), ("version", TomlValue::Integer(1))])).is_none());
    assert!(LockfilePackageReport::from_toml(&s("x")).is_none());
}

#[test]
fn lockfile_report_counts_packages() {
    let document = table(vec![
        ("version", TomlValue::Integer(3)),
        ("package", TomlValue::Array(vec![package("fixture-app", "0.1.0"), s("junk"), package("serde", "1.0.0")])),
    ]);
    let report = lockfile_report("Cargo.lock".to_string(), &document);
    assert_eq!(report.package_count, 2);
    assert_eq!(report.packages[0].name, "fixture-app");
    assert_eq!(report.packages[1].name, "serde");
    let empty = lockfile_report("Cargo.lock".to_string(), &table(vec![]));
    assert_eq!(empty.package_count, 0);
}

#[test]
fn dependency_entries() {
    let d = ManifestDependencyReport::from_toml("regex", &s("1")).unwrap();
    assert!(d.default_features);
    assert_eq!(d.name, "regex");
    let off = table(vec![("version", s("1")), ("default-features", TomlValue::Boolean(false))]);
    assert!(!ManifestDependencyReport::from_toml("serde", &off).unwrap().default_features);
    let plain = table(vec![("version", s("1"))]);
    assert!(ManifestDependencyReport::from_toml("serde", &plain).unwrap().default_features);
    let inherited = table(vec![("workspace", TomlValue::Boolean(true))]);
    assert!(ManifestDependencyReport::from_toml("serde", &inherited).is_none());
    let not_inherited = table(vec![("workspace", TomlValue::Boolean(false))]);
    assert!(ManifestDependencyReport::from_toml("serde", &not_inherited).is_some());
    assert!(ManifestDependencyReport::from_toml("serde", &TomlValue::Integer(1)).is_none());
}

fn manifest(dependencies: Option<Vec<(&str, TomlValue)>>, release: Option<ManifestReleaseProfile>) -> CargoManifest {
    CargoManifest::new(
        Some(ManifestPackage {
            name: "fixture-app".to_string(),
            version: "0.1.0".to_string(),
            edition: Some("2021".to_string()),
        }),
        Some(ManifestProfiles { release }),
        dependencies.map(|d| d.into_iter().map(|(k, v)| (k.to_string(), v)).collect()),
    )
}

fn release(opt_level: TomlValue, debug: TomlValue) -> ManifestReleaseProfile {
    ManifestReleaseProfile {
        opt_level: Some(opt_level),
        debug: Some(debug),
        lto: Some(s("thin")),
        codegen_units: Some(1),
        panic: Some("abort".to_string()),
        strip: Some(s("symbols")),
    }
}

#[test]
fn direct_dependencies_in_key_order() {
    let m = manifest(
        Some(vec![
            ("regex", s("1")),
            ("local", table(vec![("workspace", TomlValue::Boolean(true))])),
            ("serde", table(vec![("version", s("1"))])),
        ]),
        None,
    );
    let deps = read_direct_dependencies(&m);
    let names: Vec<&str> = deps.iter().map(|d| d.name.as_str()).collect();
    assert_eq!(names, vec!["regex", "serde"]);
    assert!(read_direct_dependencies(&manifest(None, None)).is_empty());
}

#[test]
fn release_profile_values() {
    let r = release(s("z"), TomlValue::Boolean(false));
    let report = ReleaseProfileReport::new("Cargo.toml".to_string(), Some(&r));
    assert_eq!(report.opt_level, Some(ProfileValue::String("z".to_string())));
    assert_eq!(report.debug, Some(ProfileValue::Bool(false)));
    assert_eq!(report.codegen_units, Some(1));
    assert!(report.has_explicit_settings());
    let none = ReleaseProfileReport::new("Cargo.toml".to_string(), None);
    assert!(!none.has_explicit_settings());
    assert_eq!(none.profile_manifest_path, "Cargo.toml");
}

#[test]
fn workspace_profile_is_used_when_separate() {
    let member = manifest(None, Some(release(s("z"), TomlValue::Boolean(false))));
    let workspace = CargoManifest {
        package: None,
        profile: Some(ManifestProfiles { release: Some(release(TomlValue::Integer(3), TomlValue::Integer(1))) }),
        dependencies: None,
    };
    assert!(profile_manifest_is_separate(&"/w/Cargo.toml".to_string(), &"/w/member/Cargo.toml".to_string()));
    assert!(!profile_manifest_is_separate(&"/w/Cargo.toml".to_string(), &"/w/Cargo.toml".to_string()));
    let report = read_cargo_report(
        "/w/member/Cargo.toml".to_string(),
        "/w/member".to_string(),
        "/w".to_string(),
        "/w/Cargo.toml".to_string(),
        member,
        Some(workspace),
        None,
    );
    assert_eq!(report.release_profile.opt_level, Some(ProfileValue::Integer(3)));
    assert_eq!(report.release_profile.debug, Some(ProfileValue::Integer(1)));
    assert_eq!(report.release_profile.profile_manifest_path, "/w/Cargo.toml");
    assert_eq!(report.package.as_ref().unwrap().name, "fixture-app");
    assert!(report.lockfile.is_none());
}

#[test]
fn package_profile_is_used_otherwise() {
    let m = manifest(None, Some(release(s("z"), TomlValue::Boolean(false))));
    let report = read_cargo_report(
        "/p/Cargo.toml".to_string(),
        "/p".to_string(),
        "/p".to_string(),
        "/p/Cargo.toml".to_string(),
        m,
        None,
        None,
    );
    assert_eq!(report.release_profile.opt_level, Some(ProfileValue::String("z".to_string())));
    assert_eq!(report.package.as_ref().unwrap().edition.as_deref(), Some("2021"));
}

#[test]
fn workspace_root_is_first_declaring_ancestor() {
    let probes = vec![
        WorkspaceProbe { dir: "/w/member".to_string(), declares_workspace: false },
        WorkspaceProbe { dir: "/w".to_string(), declares_workspace: true },
        WorkspaceProbe { dir: "/".to_string(), declares_workspace: true },
    ];
    assert_eq!(find_workspace_root(&"/w/member".to_string(), &probes), "/w");
    let none = vec![WorkspaceProbe { dir: "/p".to_string(), declares_workspace: false }];
    assert_eq!(find_workspace_root(&"/p".to_string(), &none), "/p");
}

#[test]
fn workspace_declaration() {
    assert!(manifest_declares_workspace(&table(vec![("workspace", table(vec![]))])));
    assert!(!manifest_declares_workspace(&table(vec![("package", table(vec![]))])));
    assert!(!manifest_declares_workspace(&s("workspace")));
}

#[test]
fn lockfile_text_is_read() {
    let text = "version = 3\n\n[[package]]\nname = \"cfg-if\"\nversion = \"1.0.0\"\nsource = \"registry+https://github.com/rust-lang/crates.io-index\"\n\n[[package]]\nname = \"app\"\nversion = \"0.1.0\"\n";
    let report = lockfile_from_text("/w/Cargo.lock".to_string(), text).unwrap();
    assert_eq!(report.path, "/w/Cargo.lock");
    assert_eq!(report.package_count, 2);
    assert_eq!(report.packages[0].name, "cfg-if");
    assert_eq!(report.packages[0].version, "1.0.0");
    assert_eq!(
        report.packages[0].source.as_deref(),
        Some("registry+https://github.com/rust-lang/crates.io-index")
    );
    assert_eq!(report.packages[1].name, "app");
    assert_eq!(report.packages[1].source, None);
}

#[test]
fn lockfile_text_that_does_not_parse() {
    let message = lockfile_from_text("/w/Cargo.lock".to_string(), "[[package]\nname = ").unwrap_err();
    assert!(message.starts_with("could not parse lockfile '/w/Cargo.lock': "));
    assert!(message.len() > "could not parse lockfile '/w/Cargo.lock': ".len());
}

#[test]
fn manifest_text_declares_workspace() {
    assert_eq!(text_declares_workspace("/w/Cargo.toml", "[workspace]\nmembers = [\"app\"]\n"), Ok(true));
    assert_eq!(
        text_declares_workspace("/w/app/Cargo.toml", "[package]\nname = \"app\"\nversion = \"0.1.0\"\n"),
        Ok(false)
    );
    let message = text_declares_workspace("/w/Cargo.toml", "[workspace").unwrap_err();
    assert!(message.starts_with("could not parse manifest '/w/Cargo.toml': "));
}

#[test]
fn workspace_steps() {
    let dir = "/w".to_string();
    assert_eq!(workspace_step(&dir, "/w/Cargo.toml", None), Ok(WorkspaceStep::Ascend));
    assert_eq!(
        workspace_step(&dir, "/w/Cargo.toml", Some("[workspace]\n")),
        Ok(WorkspaceStep::Root("/w".to_string()))
    );
    assert_eq!(
        workspace_step(&dir, "/w/Cargo.toml", Some("[package]\nname = \"w\"\n")),
        Ok(WorkspaceStep::Ascend)
    );
    assert!(workspace_step(&dir, "/w/Cargo.toml", Some("= broken")).is_err());
}

#[test]
fn manifest_dependencies_are_put_in_key_order() {
    let manifest = CargoManifest::new(
        None,
        None,
        Some(vec![
            ("serde".to_string(), s("1")),
            ("anyhow".to_string(), s("1")),
            ("toml".to_string(), table(vec![("version", s("0.8")), ("default-features", TomlValue::Boolean(false))])),
            ("anyhow".to_string(), table(vec![("default-features", TomlValue::Boolean(false))])),
        ]),
    );
    let keys: Vec<&str> = manifest.dependencies.as_ref().unwrap().iter().map(|(k, _)| k.as_str()).collect();
    assert_eq!(keys, vec!["anyhow", "serde", "toml"]);
    let deps = read_direct_dependencies(&manifest);
    let summary: Vec<(&str, bool)> = deps.iter().map(|d| (d.name.as_str(), d.default_features)).collect();
    assert_eq!(summary, vec![("anyhow", false), ("serde", true), ("toml", false)]);
    assert!(CargoManifest::new(None, None, None).dependencies.is_none());
}
