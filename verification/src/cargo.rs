//! Cargo context of a binary: the package manifest, the release profile that
//! applies to it, the lockfile packages and the direct dependencies.

use vstd::prelude::*;
use vstd::std_specs::convert::FromSpecImpl;
use crate::text::{chars_of, chars_are, i64_to_decimal, lex_lt, string_equal, string_less};

verus! {

/// A value of a TOML document. Floating-point numbers are kept only as
/// such, without their value, which nothing here reads.
#[derive(Debug)]
pub enum TomlValue {
    String(String),
    Integer(i64),
    Float,
    Boolean(bool),
    Datetime(String),
    Array(Vec<TomlValue>),
    Table(Vec<(String, TomlValue)>),
}

/// Whether the keys of `entries` strictly increase, so that each occurs once.
pub open spec fn keys_ascending(entries: Seq<(String, TomlValue)>) -> bool {
    forall|i: int, j: int| 0 <= i < j < entries.len() ==> lex_lt(#[trigger] entries[i].0@, #[trigger] entries[j].0@)
}

/// Whether every table in `v`, at any depth, has strictly increasing keys.
pub open spec fn toml_well_formed(v: TomlValue) -> bool
    decreases v,
{
    match v {
        TomlValue::Table(entries) => keys_ascending(entries@) && forall|i: int|
            0 <= i < entries.len() ==> toml_well_formed(#[trigger] entries@[i].1),
        TomlValue::Array(items) => forall|i: int| 0 <= i < items.len() ==> toml_well_formed(#[trigger] items@[i]),
        _ => true,
    }
}

/// What the TOML reader makes of a document's text: its value, or the text
/// of the error that stops it.
pub uninterp spec fn toml_document(text: Seq<char>) -> Result<TomlValue, Seq<char>>;

/// A parse result with its error text taken by view.
pub open spec fn toml_result(res: Result<TomlValue, String>) -> Result<TomlValue, Seq<char>> {
    match res {
        Ok(v) => Ok(v),
        Err(e) => Err(e@),
    }
}

#[verifier::external_type_specification]
#[verifier::external_body]
pub struct ExTomlValue(toml::Value);

/// Turns a `toml::Value` into a `TomlValue`, variant by variant: strings,
/// integers and booleans as they are, a float without its value, a datetime
/// by its `Display` text, arrays item by item and tables entry by entry in
/// the table's own order. Nothing is claimed of the result.
#[verifier::external_body]
fn toml_value_from(value: toml::Value) -> TomlValue {
    match value {
        toml::Value::String(s) => TomlValue::String(s),
        toml::Value::Integer(n) => TomlValue::Integer(n),
        toml::Value::Float(_) => TomlValue::Float,
        toml::Value::Boolean(b) => TomlValue::Boolean(b),
        toml::Value::Datetime(d) => TomlValue::Datetime(d.to_string()),
        toml::Value::Array(items) => TomlValue::Array(items.into_iter().map(toml_value_from).collect()),
        toml::Value::Table(table) => TomlValue::Table(table.into_iter().map(|(k, v)| (k, toml_value_from(v))).collect()),
    }
}

/// Reads `text` with `toml::from_str::<toml::Value>`: the document turned
/// into a `TomlValue` by `toml_value_from`, or the `Display` text of the
/// error. The contract claims that this is a function of the text, named
/// `toml_document`, and that each table's keys strictly increase: a
/// `toml::Table` is a `BTreeMap<String, Value>` (this build does not enable
/// the crate's `preserve_order` feature), which it walks in key order.
#[verifier::external_body]
fn parse_toml_document(text: &str) -> (res: Result<TomlValue, String>)
    ensures
        toml_result(res) == toml_document(text@),
        res matches Ok(v) ==> toml_well_formed(v),
{
    match toml::from_str::<toml::Value>(text) {
        Ok(value) => Ok(toml_value_from(value)),
        Err(error) => Err(error.to_string()),
    }
}

/// The message for a document of kind `kind` at `path` that does not parse.
pub open spec fn parse_error_message(kind: Seq<char>, path: Seq<char>, error: Seq<char>) -> Seq<char> {
    "could not parse "@ + kind + " '"@ + path + "': "@ + error
}

fn parse_error(kind: &str, path: &str, error: &str) -> (res: String)
    ensures
        res@ == parse_error_message(kind@, path@, error@),
{
    let mut res = String::from_str("could not parse ");
    res.append(kind);
    res.append(" '");
    res.append(path);
    res.append("': ");
    res.append(error);
    res
}

/// The value of the first entry called `key` (TOML tables hold each key once).
pub open spec fn table_get(entries: Seq<(String, TomlValue)>, key: Seq<char>) -> Option<TomlValue>
    decreases entries.len(),
{
    if entries.len() == 0 {
        None
    } else if entries[0].0@ == key {
        Some(entries[0].1)
    } else {
        table_get(entries.drop_first(), key)
    }
}

/// The value at `key` of a table; none for any other value.
pub open spec fn value_get(value: TomlValue, key: Seq<char>) -> Option<TomlValue> {
    match value {
        TomlValue::Table(entries) => table_get(entries@, key),
        _ => None,
    }
}

/// The string held by a value, if it is a string.
pub open spec fn value_str(value: Option<TomlValue>) -> Option<String> {
    match value {
        Some(TomlValue::String(s)) => Some(s),
        _ => None,
    }
}

/// The boolean held by a value, if it is a boolean.
pub open spec fn value_bool(value: Option<TomlValue>) -> Option<bool> {
    match value {
        Some(TomlValue::Boolean(b)) => Some(b),
        _ => None,
    }
}

/// The entry called `key` in `entries`.
pub fn table_lookup<'a>(entries: &'a Vec<(String, TomlValue)>, key: &str) -> (res: Option<&'a TomlValue>)
    ensures
        match res {
            Some(v) => table_get(entries@, key@) == Some(*v),
            None => table_get(entries@, key@) is None,
        },
{
    let key_chars = chars_of(key);
    let mut i: usize = 0;
    assert(entries@.skip(0) =~= entries@);
    while i < entries.len()
        invariant
            0 <= i <= entries.len(),
            key_chars@ == key@,
            table_get(entries@, key@) == table_get(entries@.skip(i as int), key@),
        decreases entries.len() - i,
    {
        assert(entries@.skip(i as int)[0] == entries@[i as int]);
        assert(entries@.skip(i as int).drop_first() =~= entries@.skip(i + 1));
        let name = chars_of(entries[i].0.as_str());
        if crate::text::chars_equal(&name, &key_chars) {
            return Some(&entries[i].1);
        }
        i = i + 1;
    }
    None
}

/// The value at `key` of `value`, when it is a table holding that key.
pub fn value_lookup<'a>(value: &'a TomlValue, key: &str) -> (res: Option<&'a TomlValue>)
    ensures
        match res {
            Some(v) => value_get(*value, key@) == Some(*v),
            None => value_get(*value, key@) is None,
        },
{
    match value {
        TomlValue::Table(entries) => table_lookup(entries, key),
        _ => None,
    }
}

// ------------------------------------------------------------- profile values

/// A release-profile setting as the manifest gives it.
#[derive(Debug, PartialEq, Eq)]
pub enum ProfileValue {
    Bool(bool),
    Integer(i64),
    String(String),
}

/// The profile value of a TOML value: booleans, integers and strings; none otherwise.
pub open spec fn profile_value_of(value: TomlValue) -> Option<ProfileValue> {
    match value {
        TomlValue::Boolean(b) => Some(ProfileValue::Bool(b)),
        TomlValue::Integer(n) => Some(ProfileValue::Integer(n)),
        TomlValue::String(s) => Some(ProfileValue::String(s)),
        _ => None,
    }
}

/// How a profile value is written: `true` or `false`, the decimal integer,
/// or the string itself.
pub open spec fn profile_text(value: ProfileValue) -> Seq<char> {
    match value {
        ProfileValue::Bool(b) => if b { "true"@ } else { "false"@ },
        ProfileValue::Integer(n) => crate::text::int_decimal(n as int),
        ProfileValue::String(s) => s@,
    }
}

impl ProfileValue {
    /// The profile value of a TOML value.
    pub fn from_toml(value: &TomlValue) -> (res: Option<ProfileValue>)
        ensures
            res == profile_value_of(*value),
    {
        match value {
            TomlValue::Boolean(b) => Some(ProfileValue::Bool(*b)),
            TomlValue::Integer(n) => Some(ProfileValue::Integer(*n)),
            TomlValue::String(s) => Some(ProfileValue::String(s.clone())),
            _ => None,
        }
    }

    /// How the value is written in reports.
    pub fn display_string(&self) -> (res: String)
        ensures
            res@ == profile_text(*self),
    {
        match self {
            ProfileValue::Bool(b) => if *b {
                String::from_str("true")
            } else {
                String::from_str("false")
            },
            ProfileValue::Integer(n) => i64_to_decimal(*n),
            ProfileValue::String(s) => s.clone(),
        }
    }
}

/// The optional profile value of an optional TOML value.
pub open spec fn opt_profile_value(value: Option<TomlValue>) -> Option<ProfileValue> {
    match value {
        Some(v) => profile_value_of(v),
        None => None,
    }
}

fn opt_from_toml(value: &Option<TomlValue>) -> (res: Option<ProfileValue>)
    ensures
        res == opt_profile_value(*value),
{
    match value {
        Some(v) => ProfileValue::from_toml(v),
        None => None,
    }
}

// ------------------------------------------------------------- manifest

/// The `[package]` table of a manifest.
pub struct ManifestPackage {
    pub name: String,
    pub version: String,
    pub edition: Option<String>,
}

/// The `[profile.release]` table of a manifest.
pub struct ManifestReleaseProfile {
    pub opt_level: Option<TomlValue>,
    pub debug: Option<TomlValue>,
    pub lto: Option<TomlValue>,
    pub codegen_units: Option<u64>,
    pub panic: Option<String>,
    pub strip: Option<TomlValue>,
}

/// The `[profile]` tables of a manifest.
pub struct ManifestProfiles {
    pub release: Option<ManifestReleaseProfile>,
}

/// What is read of a `Cargo.toml`: the package, the profiles and the
/// `[dependencies]` entries in key order.
pub struct CargoManifest {
    pub package: Option<ManifestPackage>,
    pub profile: Option<ManifestProfiles>,
    pub dependencies: Option<Vec<(String, TomlValue)>>,
}

/// `t` with the entry `e` put in key order: it replaces an entry with the
/// same key, or goes before the first entry with a greater key.
pub open spec fn table_insert(t: Seq<(String, TomlValue)>, e: (String, TomlValue)) -> Seq<(String, TomlValue)>
    decreases t.len(),
{
    if t.len() == 0 {
        seq![e]
    } else if t[0].0@ == e.0@ {
        seq![e] + t.drop_first()
    } else if lex_lt(e.0@, t[0].0@) {
        seq![e] + t
    } else {
        seq![t[0]] + table_insert(t.drop_first(), e)
    }
}

/// The table of the entries `s`, put in key order one after another, so that
/// the last entry for a key is the one kept.
pub open spec fn keyed_table(s: Seq<(String, TomlValue)>) -> Seq<(String, TomlValue)>
    decreases s.len(),
{
    if s.len() == 0 {
        Seq::empty()
    } else {
        table_insert(keyed_table(s.drop_last()), s.last())
    }
}

/// Where `e` goes in a table with ascending keys: after the entries at
/// `0..pos`, whose keys are smaller, and at `pos`, whose key is not.
proof fn lemma_table_insert_at(t: Seq<(String, TomlValue)>, e: (String, TomlValue), pos: int)
    requires
        keys_ascending(t),
        0 <= pos <= t.len(),
        forall|i: int| 0 <= i < pos ==> lex_lt(#[trigger] t[i].0@, e.0@),
        pos < t.len() ==> !lex_lt(t[pos].0@, e.0@),
    ensures
        pos < t.len() && t[pos].0@ == e.0@ ==> table_insert(t, e) == t.update(pos, e),
        !(pos < t.len() && t[pos].0@ == e.0@) ==> table_insert(t, e) == t.insert(pos, e),
        keys_ascending(table_insert(t, e)),
    decreases pos,
{
    if pos == 0 {
        if t.len() == 0 {
            assert(table_insert(t, e) =~= t.insert(0, e));
        } else if t[0].0@ == e.0@ {
            assert(table_insert(t, e) =~= t.update(0, e));
        } else {
            crate::text::lemma_lex_lt_total(t[0].0@, e.0@);
            assert(table_insert(t, e) =~= t.insert(0, e));
        }
    } else {
        let rest = t.drop_first();
        crate::text::lemma_lex_lt_irreflexive(e.0@);
        crate::text::lemma_lex_lt_total(t[0].0@, e.0@);
        assert(t[0].0@ != e.0@);
        assert forall|i: int, j: int| 0 <= i < j < rest.len() implies lex_lt(#[trigger] rest[i].0@, #[trigger] rest[j].0@) by {
            assert(rest[i] == t[i + 1] && rest[j] == t[j + 1]);
        }
        assert forall|i: int| 0 <= i < pos - 1 implies lex_lt(#[trigger] rest[i].0@, e.0@) by {
            assert(rest[i] == t[i + 1]);
        }
        lemma_table_insert_at(rest, e, pos - 1);
        if pos < t.len() && t[pos].0@ == e.0@ {
            assert(table_insert(t, e) =~= t.update(pos, e));
        } else {
            assert(table_insert(t, e) =~= t.insert(pos, e));
        }
    }
    let r = table_insert(t, e);
    if pos < t.len() && t[pos].0@ == e.0@ {
        assert forall|i: int, j: int| 0 <= i < j < r.len() implies lex_lt(#[trigger] r[i].0@, #[trigger] r[j].0@) by {
            assert(r[i].0@ == t[i].0@ && r[j].0@ == t[j].0@);
        }
    } else {
        if pos < t.len() {
            crate::text::lemma_lex_lt_total(t[pos].0@, e.0@);
        }
        assert forall|i: int, j: int| 0 <= i < j < r.len() implies lex_lt(#[trigger] r[i].0@, #[trigger] r[j].0@) by {
            if j < pos {
                assert(r[i] == t[i] && r[j] == t[j]);
            } else if j == pos {
                assert(r[i] == t[i] && r[j] == e);
            } else if i == pos {
                assert(r[j] == t[j - 1]);
                if j - 1 > pos {
                    crate::text::lemma_lex_lt_transitive(e.0@, t[pos].0@, t[j - 1].0@);
                }
            } else if i < pos {
                assert(r[i] == t[i] && r[j] == t[j - 1]);
                if i < j - 1 {
                } else {
                    assert(false);
                }
            } else {
                assert(r[i] == t[i - 1] && r[j] == t[j - 1]);
            }
        }
    }
}

/// Puts `entry` into `table` as `table_insert` does.
fn table_insert_entry(table: &mut Vec<(String, TomlValue)>, entry: (String, TomlValue))
    requires
        keys_ascending(old(table)@),
    ensures
        final(table)@ == table_insert(old(table)@, entry),
        keys_ascending(final(table)@),
{
    let ghost t = table@;
    let mut pos: usize = 0;
    while pos < table.len() && string_less(&table[pos].0, &entry.0)
        invariant
            0 <= pos <= table.len(),
            t == table@,
            forall|i: int| 0 <= i < pos ==> lex_lt(#[trigger] t[i].0@, entry.0@),
        decreases table.len() - pos,
    {
        pos = pos + 1;
    }
    proof {
        lemma_table_insert_at(t, entry, pos as int);
    }
    if pos < table.len() && string_equal(&table[pos].0, &entry.0) {
        table.set(pos, entry);
    } else {
        table.insert(pos, entry);
    }
}

impl CargoManifest {
    /// Whether the `[dependencies]` keys strictly increase, as those of a
    /// TOML table read in key order do.
    pub open spec fn well_formed(&self) -> bool {
        self.dependencies matches Some(entries) ==> keys_ascending(entries@)
    }

    /// A manifest whose `[dependencies]` table is made of `dependencies`,
    /// in any order: they are put in key order, and of two entries with the
    /// same key the later is kept.
    pub fn new(
        package: Option<ManifestPackage>,
        profile: Option<ManifestProfiles>,
        dependencies: Option<Vec<(String, TomlValue)>>,
    ) -> (res: Self)
        ensures
            res.package == package,
            res.profile == profile,
            res.dependencies is Some <==> dependencies is Some,
            dependencies matches Some(d) ==> res.dependencies->0@ == keyed_table(d@),
            res.well_formed(),
    {
        let table = match dependencies {
            None => None,
            Some(entries) => {
                let ghost d = entries@;
                let total: usize = entries.len();
                assert(d.len() == total);
                let mut rest = entries;
                let mut table: Vec<(String, TomlValue)> = Vec::new();
                let mut k: usize = 0;
                while rest.len() > 0
                    invariant
                        k <= d.len(),
                        d.len() <= usize::MAX,
                        rest@ == d.skip(k as int),
                        table@ == keyed_table(d.take(k as int)),
                        keys_ascending(table@),
                    decreases rest.len(),
                {
                    assert(d.take(k + 1).drop_last() =~= d.take(k as int));
                    assert(d.take(k + 1).last() == d[k as int]);
                    let entry = rest.remove(0);
                    assert(rest@ =~= d.skip(k + 1));
                    table_insert_entry(&mut table, entry);
                    k = k + 1;
                }
                assert(d.take(k as int) =~= d);
                Some(table)
            },
        };
        CargoManifest { package, profile, dependencies: table }
    }
}

/// The package named in a report.
#[derive(Debug)]
pub struct PackageReport {
    pub name: String,
    pub version: String,
    pub edition: Option<String>,
}

impl From<ManifestPackage> for PackageReport {
    fn from(package: ManifestPackage) -> (res: Self) {
        PackageReport { name: package.name, version: package.version, edition: package.edition }
    }
}

impl FromSpecImpl<ManifestPackage> for PackageReport {
    open spec fn obeys_from_spec() -> bool {
        true
    }

    open spec fn from_spec(package: ManifestPackage) -> PackageReport {
        PackageReport { name: package.name, version: package.version, edition: package.edition }
    }
}

/// The release profile that applies to a package, and the manifest it comes from.
pub struct ReleaseProfileReport {
    pub profile_manifest_path: String,
    pub opt_level: Option<ProfileValue>,
    pub debug: Option<ProfileValue>,
    pub lto: Option<ProfileValue>,
    pub codegen_units: Option<u64>,
    pub panic: Option<String>,
    pub strip: Option<ProfileValue>,
}

/// `report` gives the settings of `profile` (none without one), read from the manifest at `path`.
pub open spec fn release_report_of(
    report: ReleaseProfileReport,
    path: String,
    profile: Option<ManifestReleaseProfile>,
) -> bool {
    &&& report.profile_manifest_path == path
    &&& match profile {
        None => {
            &&& report.opt_level is None
            &&& report.debug is None
            &&& report.lto is None
            &&& report.codegen_units is None
            &&& report.panic is None
            &&& report.strip is None
        },
        Some(p) => {
            &&& report.opt_level == opt_profile_value(p.opt_level)
            &&& report.debug == opt_profile_value(p.debug)
            &&& report.lto == opt_profile_value(p.lto)
            &&& report.codegen_units == p.codegen_units
            &&& report.panic == p.panic
            &&& report.strip == opt_profile_value(p.strip)
        },
    }
}

impl ReleaseProfileReport {
    /// The settings of `profile` (none without one), read from the manifest at `path`.
    pub fn new(path: String, profile: Option<&ManifestReleaseProfile>) -> (res: Self)
        ensures
            release_report_of(res, path, match profile {
                Some(p) => Some(*p),
                None => None,
            }),
    {
        match profile {
            None => ReleaseProfileReport {
                profile_manifest_path: path,
                opt_level: None,
                debug: None,
                lto: None,
                codegen_units: None,
                panic: None,
                strip: None,
            },
            Some(profile) => ReleaseProfileReport {
                profile_manifest_path: path,
                opt_level: opt_from_toml(&profile.opt_level),
                debug: opt_from_toml(&profile.debug),
                lto: opt_from_toml(&profile.lto),
                codegen_units: profile.codegen_units,
                panic: profile.panic.clone(),
                strip: opt_from_toml(&profile.strip),
            },
        }
    }

    /// Whether any release setting is given.
    pub fn has_explicit_settings(&self) -> (res: bool)
        ensures
            res == (self.opt_level is Some || self.debug is Some || self.lto is Some
                || self.codegen_units is Some || self.panic is Some || self.strip is Some),
    {
        self.opt_level.is_some() || self.debug.is_some() || self.lto.is_some()
            || self.codegen_units.is_some() || self.panic.is_some() || self.strip.is_some()
    }
}


// ------------------------------------------------------------- lockfile

/// A package listed in `Cargo.lock`.
#[derive(Debug)]
pub struct LockfilePackageReport {
    pub name: String,
    pub version: String,
    pub source: Option<String>,
}

/// The lockfile package of a `[[package]]` entry: a table with string
/// `name` and `version`, and `source` when it is a string; none otherwise.
pub open spec fn lock_package_of(value: TomlValue) -> Option<LockfilePackageReport> {
    match value {
        TomlValue::Table(entries) => match (
            value_str(table_get(entries@, "name"@)),
            value_str(table_get(entries@, "version"@)),
        ) {
            (Some(name), Some(version)) => Some(
                LockfilePackageReport {
                    name,
                    version,
                    source: value_str(table_get(entries@, "source"@)),
                },
            ),
            _ => None,
        },
        _ => None,
    }
}

/// `lock_package_of` as a function value.
pub open spec fn lock_package_fn() -> spec_fn(TomlValue) -> Option<LockfilePackageReport> {
    |v: TomlValue| lock_package_of(v)
}

/// The string in an optional value, cloned.
fn string_of(value: Option<&TomlValue>) -> (res: Option<String>)
    ensures
        res == value_str(match value {
            Some(v) => Some(*v),
            None => None,
        }),
{
    match value {
        Some(TomlValue::String(s)) => Some(s.clone()),
        _ => None,
    }
}

impl LockfilePackageReport {
    /// The lockfile package of a `[[package]]` entry.
    pub fn from_toml(value: &TomlValue) -> (res: Option<Self>)
        ensures
            res == lock_package_of(*value),
    {
        let name = string_of(value_lookup(value, "name"))?;
        let version = string_of(value_lookup(value, "version"))?;
        let source = string_of(value_lookup(value, "source"));
        Some(LockfilePackageReport { name, version, source })
    }
}

/// The packages of a lockfile document: the usable entries of its `package` array.
pub open spec fn lock_packages(document: TomlValue) -> Seq<LockfilePackageReport> {
    match value_get(document, "package"@) {
        Some(TomlValue::Array(items)) => items@.filter_map(lock_package_fn()),
        _ => Seq::empty(),
    }
}

/// The lockfile of a workspace.
#[derive(Debug)]
pub struct LockfileReport {
    pub path: String,
    pub package_count: usize,
    pub packages: Vec<LockfilePackageReport>,
}

/// The report on the lockfile at `path` whose document is `document`.
pub fn lockfile_report(path: String, document: &TomlValue) -> (res: LockfileReport)
    ensures
        res.path == path,
        res.packages@ == lock_packages(*document),
        res.package_count == res.packages.len(),
{
    let mut packages: Vec<LockfilePackageReport> = Vec::new();
    match value_lookup(document, "package") {
        Some(TomlValue::Array(items)) => {
            let mut i: usize = 0;
            while i < items.len()
                invariant
                    0 <= i <= items.len(),
                    packages@ == items@.take(i as int).filter_map(lock_package_fn()),
                decreases items.len() - i,
            {
                assert(items@.take(i + 1).drop_last() =~= items@.take(i as int));
                assert(items@.take(i + 1).last() == items@[i as int]);
                match LockfilePackageReport::from_toml(&items[i]) {
                    Some(p) => {
                        packages.push(p);
                    },
                    None => {},
                }
                i = i + 1;
            }
            assert(items@.take(items.len() as int) =~= items@);
        },
        _ => {},
    }
    let package_count = packages.len();
    LockfileReport { path, package_count, packages }
}

/// The report on the lockfile at `path` whose text is `text`, or the message
/// of the parse error.
pub fn lockfile_from_text(path: String, text: &str) -> (res: Result<LockfileReport, String>)
    ensures
        match toml_document(text@) {
            Ok(d) => res matches Ok(r) && r.path == path && r.packages@ == lock_packages(d)
                && r.package_count == r.packages.len(),
            Err(e) => res matches Err(m) && m@ == parse_error_message("lockfile"@, path@, e),
        },
{
    match parse_toml_document(text) {
        Ok(document) => Ok(lockfile_report(path, &document)),
        Err(error) => Err(parse_error("lockfile", path.as_str(), error.as_str())),
    }
}

// ------------------------------------------------------------- dependencies

/// A direct dependency and whether its default features are on.
#[derive(Debug)]
pub struct ManifestDependencyReport {
    pub name: String,
    pub default_features: bool,
}

/// The mathematical value of a `ManifestDependencyReport`.
pub struct DependencyModel {
    pub name: Seq<char>,
    pub default_features: bool,
}

impl View for ManifestDependencyReport {
    type V = DependencyModel;

    open spec fn view(&self) -> DependencyModel {
        DependencyModel { name: self.name@, default_features: self.default_features }
    }
}

/// The dependency entry `name = value`: a version string has default
/// features; a table has them unless `default-features` is `false`, and is
/// left out when `workspace = true`; any other value is left out.
pub open spec fn dependency_of(name: Seq<char>, value: TomlValue) -> Option<DependencyModel> {
    match value {
        TomlValue::String(_) => Some(DependencyModel { name, default_features: true }),
        TomlValue::Table(entries) => if value_bool(table_get(entries@, "workspace"@)) == Some(true) {
            None
        } else {
            Some(
                DependencyModel {
                    name,
                    default_features: match value_bool(table_get(entries@, "default-features"@)) {
                        Some(b) => b,
                        None => true,
                    },
                },
            )
        },
        _ => None,
    }
}

/// `dependency_of` over `(name, value)` entries, as a function value.
pub open spec fn dependency_fn() -> spec_fn((String, TomlValue)) -> Option<DependencyModel> {
    |e: (String, TomlValue)| dependency_of(e.0@, e.1)
}

fn bool_of(value: Option<&TomlValue>) -> (res: Option<bool>)
    ensures
        res == value_bool(match value {
            Some(v) => Some(*v),
            None => None,
        }),
{
    match value {
        Some(TomlValue::Boolean(b)) => Some(*b),
        _ => None,
    }
}

impl ManifestDependencyReport {
    /// The dependency entry `name = value`.
    pub fn from_toml(name: &str, value: &TomlValue) -> (res: Option<Self>)
        ensures
            match res {
                Some(r) => dependency_of(name@, *value) == Some(r@),
                None => dependency_of(name@, *value) is None,
            },
    {
        let default_features = match value {
            TomlValue::String(_) => true,
            TomlValue::Table(entries) => {
                let workspace = bool_of(table_lookup(entries, "workspace"));
                if workspace == Some(true) {
                    return None;
                }
                match bool_of(table_lookup(entries, "default-features")) {
                    Some(b) => b,
                    None => true,
                }
            },
            _ => {
                return None;
            },
        };
        Some(ManifestDependencyReport { name: String::from_str(name), default_features })
    }
}

/// A dependency given by a version string is reported with default
/// features; one given by a table is reported unless its `workspace` key is
/// `true`, whatever other keys (such as `path` or `git`) it holds, with
/// default features unless its `default-features` key is `false`.
pub proof fn law_dependency_entries(name: Seq<char>, version: String, entries: Vec<(String, TomlValue)>)
    ensures
        dependency_of(name, TomlValue::String(version)) == Some(DependencyModel { name, default_features: true }),
        value_bool(table_get(entries@, "workspace"@)) != Some(true) ==> dependency_of(name, TomlValue::Table(entries))
            == Some(
            DependencyModel {
                name,
                default_features: value_bool(table_get(entries@, "default-features"@)) != Some(false),
            },
        ),
        value_bool(table_get(entries@, "workspace"@)) == Some(true) ==> dependency_of(name, TomlValue::Table(entries))
            is None,
{
}

/// What `f` maps an element of `s` to is among `s.filter_map(f)`.
proof fn lemma_filter_map_has<A, B>(s: Seq<A>, f: spec_fn(A) -> Option<B>, k: int)
    requires
        0 <= k < s.len(),
        f(s[k]) is Some,
    ensures
        s.filter_map(f).contains(f(s[k])->0),
    decreases s.len(),
{
    let init = s.drop_last();
    let rest = init.filter_map(f);
    if k == s.len() - 1 {
        assert(s.filter_map(f) =~= rest.push(f(s[k])->0));
        assert(s.filter_map(f)[rest.len() as int] == f(s[k])->0);
    } else {
        assert(init[k] == s[k]);
        lemma_filter_map_has(init, f, k);
        let j = choose|j: int| 0 <= j < rest.len() && rest[j] == f(s[k])->0;
        if let Some(y) = f(s.last()) {
            assert(s.filter_map(f) =~= rest.push(y));
            assert(s.filter_map(f)[j] == rest[j]);
        } else {
            assert(s.filter_map(f) =~= rest);
        }
    }
}

/// The direct dependencies of a manifest are exactly its `[dependencies]`
/// entries that `dependency_of` reports: each of those is listed, and each
/// listed one comes from an entry.
pub proof fn law_manifest_dependencies(m: CargoManifest)
    ensures
        m.dependencies is None ==> direct_dependencies(m).len() == 0,
        m.dependencies matches Some(entries) ==> {
            &&& forall|k: int|
                0 <= k < entries.len() && (#[trigger] dependency_of(entries@[k].0@, entries@[k].1)) is Some
                    ==> direct_dependencies(m).contains(dependency_of(entries@[k].0@, entries@[k].1)->0)
            &&& forall|i: int| 0 <= i < direct_dependencies(m).len() ==> exists|k: int|
                0 <= k < entries.len() && dependency_of(entries@[k].0@, entries@[k].1) == Some(
                    #[trigger] direct_dependencies(m)[i],
                )
        },
{
    if let Some(entries) = m.dependencies {
        let e = entries@;
        assert forall|k: int|
            0 <= k < entries.len() && (#[trigger] dependency_of(entries@[k].0@, entries@[k].1)) is Some
                implies direct_dependencies(m).contains(dependency_of(entries@[k].0@, entries@[k].1)->0) by {
            assert(dependency_fn()(e[k]) == dependency_of(e[k].0@, e[k].1));
            lemma_filter_map_has(e, dependency_fn(), k);
        }
        assert forall|i: int| 0 <= i < direct_dependencies(m).len() implies exists|k: int|
            0 <= k < entries.len() && dependency_of(entries@[k].0@, entries@[k].1) == Some(
                #[trigger] direct_dependencies(m)[i],
            ) by {
            let x = direct_dependencies(m)[i];
            assert(e.filter_map(dependency_fn()).contains(x));
            e.lemma_filter_map_contains(dependency_fn(), x);
            let t = choose|t: (String, TomlValue)| #[trigger] e.contains(t) && dependency_fn()(t) == Some(x);
            let k = choose|k: int| 0 <= k < e.len() && e[k] == t;
            assert(dependency_of(e[k].0@, e[k].1) == Some(x));
        }
    }
}

/// The views of a sequence of dependency reports.
pub open spec fn dependency_views(s: Seq<ManifestDependencyReport>) -> Seq<DependencyModel> {
    s.map_values(|d: ManifestDependencyReport| d@)
}

/// The direct dependencies of a manifest, in the order of its `[dependencies]` keys.
pub open spec fn direct_dependencies(manifest: CargoManifest) -> Seq<DependencyModel> {
    match manifest.dependencies {
        Some(entries) => entries@.filter_map(dependency_fn()),
        None => Seq::empty(),
    }
}

/// Whether the names of `deps` strictly increase.
pub open spec fn names_ascending(deps: Seq<DependencyModel>) -> bool {
    forall|i: int, j: int| 0 <= i < j < deps.len() ==> lex_lt(#[trigger] deps[i].name, #[trigger] deps[j].name)
}

/// The dependencies of entries with ascending keys come in ascending name
/// order, each named after one of the keys.
proof fn lemma_dependencies_ascending(entries: Seq<(String, TomlValue)>)
    requires
        keys_ascending(entries),
    ensures
        names_ascending(entries.filter_map(dependency_fn())),
        forall|i: int| 0 <= i < entries.filter_map(dependency_fn()).len() ==> exists|k: int|
            0 <= k < entries.len() && #[trigger] entries.filter_map(dependency_fn())[i].name == entries[k].0@,
    decreases entries.len(),
{
    if entries.len() > 0 {
        let init = entries.drop_last();
        let last = entries.last();
        assert forall|i: int, j: int| 0 <= i < j < init.len() implies lex_lt(#[trigger] init[i].0@, #[trigger] init[j].0@) by {
            assert(init[i] == entries[i] && init[j] == entries[j]);
        }
        lemma_dependencies_ascending(init);
        let before = init.filter_map(dependency_fn());
        let all = entries.filter_map(dependency_fn());
        if let Some(x) = dependency_fn()(last) {
            assert(all =~= before.push(x));
            assert forall|i: int| 0 <= i < before.len() implies lex_lt(#[trigger] before[i].name, x.name) by {
                let k = choose|k: int| 0 <= k < init.len() && before[i].name == init[k].0@;
                assert(init[k] == entries[k]);
            }
            assert forall|i: int, j: int| 0 <= i < j < all.len() implies lex_lt(#[trigger] all[i].name, #[trigger] all[j].name) by {
                if j == before.len() {
                    assert(all[i] == before[i]);
                } else {
                    assert(all[i] == before[i] && all[j] == before[j]);
                }
            }
            assert forall|i: int| 0 <= i < all.len() implies exists|k: int|
                0 <= k < entries.len() && #[trigger] all[i].name == entries[k].0@ by {
                if i == before.len() {
                    assert(all[i].name == entries[entries.len() - 1].0@);
                } else {
                    assert(all[i] == before[i]);
                    let k = choose|k: int| 0 <= k < init.len() && before[i].name == init[k].0@;
                    assert(init[k] == entries[k]);
                }
            }
        } else {
            assert(all =~= before);
            assert forall|i: int| 0 <= i < all.len() implies exists|k: int|
                0 <= k < entries.len() && #[trigger] all[i].name == entries[k].0@ by {
                let k = choose|k: int| 0 <= k < init.len() && before[i].name == init[k].0@;
                assert(init[k] == entries[k]);
            }
        }
    }
}

/// The direct dependencies of a manifest, in the order of its
/// `[dependencies]` keys: in increasing name order when the manifest is well formed.
pub fn read_direct_dependencies(manifest: &CargoManifest) -> (res: Vec<ManifestDependencyReport>)
    ensures
        dependency_views(res@) == direct_dependencies(*manifest),
        manifest.well_formed() ==> names_ascending(dependency_views(res@)),
{
    proof {
        if manifest.well_formed() && manifest.dependencies is Some {
            lemma_dependencies_ascending(manifest.dependencies->0@);
        }
    }
    let mut res: Vec<ManifestDependencyReport> = Vec::new();
    match &manifest.dependencies {
        None => {},
        Some(entries) => {
            let mut i: usize = 0;
            while i < entries.len()
                invariant
                    0 <= i <= entries.len(),
                    dependency_views(res@) == entries@.take(i as int).filter_map(dependency_fn()),
                decreases entries.len() - i,
            {
                assert(entries@.take(i + 1).drop_last() =~= entries@.take(i as int));
                assert(entries@.take(i + 1).last() == entries@[i as int]);
                let ghost before = res@;
                match ManifestDependencyReport::from_toml(entries[i].0.as_str(), &entries[i].1) {
                    Some(d) => {
                        res.push(d);
                        assert(dependency_views(res@) =~= dependency_views(before).push(res@.last()@));
                    },
                    None => {},
                }
                i = i + 1;
            }
            assert(entries@.take(entries.len() as int) =~= entries@);
        },
    }
    res
}

// ------------------------------------------------------------- workspace

/// Whether a manifest document has a `workspace` key.
pub fn manifest_declares_workspace(document: &TomlValue) -> (res: bool)
    ensures
        res == value_get(*document, "workspace"@) is Some,
{
    value_lookup(document, "workspace").is_some()
}

/// Whether the manifest at `path` whose text is `text` declares a workspace,
/// or the message of the parse error.
pub fn text_declares_workspace(path: &str, text: &str) -> (res: Result<bool, String>)
    ensures
        match toml_document(text@) {
            Ok(d) => res == Ok::<bool, String>(value_get(d, "workspace"@) is Some),
            Err(e) => res matches Err(m) && m@ == parse_error_message("manifest"@, path@, e),
        },
{
    match parse_toml_document(text) {
        Ok(document) => Ok(manifest_declares_workspace(&document)),
        Err(error) => Err(parse_error("manifest", path, error.as_str())),
    }
}

/// What the search for the workspace root does after looking at a directory.
#[derive(Debug, PartialEq, Eq)]
pub enum WorkspaceStep {
    /// The directory is the workspace root.
    Root(String),
    /// Go on with the parent directory.
    Ascend,
}

/// One step of the search for the workspace root at directory `dir`, whose
/// `Cargo.toml` is at `manifest_path` and has the text `manifest_text`
/// (`None` when there is no such file): the directory is the root when the
/// manifest declares a workspace; a manifest that does not parse stops the
/// search with its message.
pub fn workspace_step(dir: &String, manifest_path: &str, manifest_text: Option<&str>) -> (res: Result<WorkspaceStep, String>)
    ensures
        match manifest_text {
            None => res == Ok::<WorkspaceStep, String>(WorkspaceStep::Ascend),
            Some(t) => match toml_document(t@) {
                Ok(d) => res == Ok::<WorkspaceStep, String>(
                    if value_get(d, "workspace"@) is Some {
                        WorkspaceStep::Root(*dir)
                    } else {
                        WorkspaceStep::Ascend
                    },
                ),
                Err(e) => res matches Err(m) && m@ == parse_error_message("manifest"@, manifest_path@, e),
            },
        },
{
    match manifest_text {
        None => Ok(WorkspaceStep::Ascend),
        Some(text) => match text_declares_workspace(manifest_path, text) {
            Ok(true) => Ok(WorkspaceStep::Root(dir.clone())),
            Ok(false) => Ok(WorkspaceStep::Ascend),
            Err(message) => Err(message),
        },
    }
}

/// A directory looked at when searching for the workspace root, and whether
/// it holds a `Cargo.toml` file that declares a workspace.
pub struct WorkspaceProbe {
    pub dir: String,
    pub declares_workspace: bool,
}

/// The first probed directory whose manifest declares a workspace; `fallback` when none does.
pub open spec fn first_workspace(probes: Seq<WorkspaceProbe>, fallback: String) -> String
    decreases probes.len(),
{
    if probes.len() == 0 {
        fallback
    } else if probes[0].declares_workspace {
        probes[0].dir
    } else {
        first_workspace(probes.drop_first(), fallback)
    }
}

/// The workspace root of a package: the first of the probed directories
/// (the package root and then its ancestors, nearest first) whose
/// `Cargo.toml` declares a workspace, or the package root when none does.
pub fn find_workspace_root(package_root: &String, probes: &Vec<WorkspaceProbe>) -> (res: String)
    ensures
        res == first_workspace(probes@, *package_root),
{
    let mut i: usize = 0;
    assert(probes@.skip(0) =~= probes@);
    while i < probes.len()
        invariant
            0 <= i <= probes.len(),
            first_workspace(probes@, *package_root) == first_workspace(probes@.skip(i as int), *package_root),
        decreases probes.len() - i,
    {
        assert(probes@.skip(i as int)[0] == probes@[i as int]);
        assert(probes@.skip(i as int).drop_first() =~= probes@.skip(i + 1));
        if probes[i].declares_workspace {
            return probes[i].dir.clone();
        }
        i = i + 1;
    }
    package_root.clone()
}

/// Whether the manifest that holds the release profile, at
/// `profile_manifest_path`, is another file than the package manifest.
pub fn profile_manifest_is_separate(profile_manifest_path: &String, manifest_path: &String) -> (res: bool)
    ensures
        res == (profile_manifest_path@ != manifest_path@),
{
    !string_equal(profile_manifest_path, manifest_path)
}

// ------------------------------------------------------------- report

/// The Cargo context of a binary.
pub struct CargoReport {
    pub manifest_path: String,
    pub package_root: String,
    pub workspace_root: String,
    pub package: Option<PackageReport>,
    pub release_profile: ReleaseProfileReport,
    pub lockfile: Option<LockfileReport>,
    pub direct_dependencies: Vec<ManifestDependencyReport>,
}

/// The release profile table of a manifest.
pub open spec fn release_of(manifest: CargoManifest) -> Option<ManifestReleaseProfile> {
    match manifest.profile {
        Some(p) => p.release,
        None => None,
    }
}

/// The Cargo report of a package: `package_manifest` is its manifest, at
/// `manifest_path`; the release profile comes from `profile_manifest`, the
/// workspace manifest at `profile_manifest_path`, or from the package
/// manifest itself when that is `None`; `lockfile` is the workspace's lockfile.
pub fn read_cargo_report(
    manifest_path: String,
    package_root: String,
    workspace_root: String,
    profile_manifest_path: String,
    package_manifest: CargoManifest,
    profile_manifest: Option<CargoManifest>,
    lockfile: Option<LockfileReport>,
) -> (res: CargoReport)
    ensures
        res.manifest_path == manifest_path,
        res.package_root == package_root,
        res.workspace_root == workspace_root,
        res.package == match package_manifest.package {
            Some(p) => Some(PackageReport { name: p.name, version: p.version, edition: p.edition }),
            None => None,
        },
        release_report_of(res.release_profile, profile_manifest_path, release_of(match profile_manifest {
            Some(m) => m,
            None => package_manifest,
        })),
        res.lockfile == lockfile,
        dependency_views(res.direct_dependencies@) == direct_dependencies(package_manifest),
        package_manifest.well_formed() ==> names_ascending(dependency_views(res.direct_dependencies@)),
{
    let release_profile = {
        let source = match &profile_manifest {
            Some(m) => m,
            None => &package_manifest,
        };
        let release = match &source.profile {
            Some(p) => match &p.release {
                Some(r) => Some(r),
                None => None,
            },
            None => None,
        };
        ReleaseProfileReport::new(profile_manifest_path, release)
    };
    let direct_dependencies = read_direct_dependencies(&package_manifest);
    let package = match package_manifest.package {
        Some(p) => Some(PackageReport::from(p)),
        None => None,
    };
    CargoReport {
        manifest_path,
        package_root,
        workspace_root,
        package,
        release_profile,
        lockfile,
        direct_dependencies,
    }
}

} // verus!
