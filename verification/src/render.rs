//! The text form of the reports, line by line. Sizes in MiB are written by
//! the caller, which hands their text in.

use vstd::prelude::*;
use crate::cargo::{
    CargoReport, LockfileReport, PackageReport, ProfileValue, ReleaseProfileReport, profile_text,
};
use crate::suggestions::{SuggestionModel, SuggestionReport, confidence_name, suggestion_views};
use crate::attribution::{AttributionReport, CrateAttributionReport};
use crate::diff::{DiffBinaryReport, DiffReport, DeltaModel, SectionDeltaReport, delta_views, status_name};
use crate::inspect::InspectReport;
use crate::object_report::{ObjectReport, SectionModel, SectionReport, section_views};
use crate::text::{
    i64_to_plus_decimal, nat_decimal, nat_hex, plus_decimal, u64_to_decimal, u64_to_hex,
    usize_to_decimal, views,
};

verus! {

fn push_line(lines: &mut Vec<String>, line: String)
    ensures
        views(final(lines)@) == views(old(lines)@).push(line@),
{
    let ghost before = lines@;
    lines.push(line);
    assert(views(lines@) =~= views(before).push(line@));
}

fn concat2(a: &str, b: &str) -> (res: String)
    ensures
        res@ == a@ + b@,
{
    let mut res = String::from_str(a);
    res.append(b);
    res
}

fn concat3(a: &str, b: &str, c: &str) -> (res: String)
    ensures
        res@ == a@ + b@ + c@,
{
    let mut res = String::from_str(a);
    res.append(b);
    res.append(c);
    res
}

// ------------------------------------------------------------- release profile

/// The line of an optional profile value: `label` and the value; nothing when unset.
pub open spec fn value_line(label: Seq<char>, value: Option<ProfileValue>) -> Seq<Seq<char>> {
    match value {
        Some(v) => seq![label + profile_text(v)],
        None => Seq::empty(),
    }
}

/// The lines of a release profile: where it comes from, then each setting
/// that is given (strip, debug, lto, codegen-units, panic, opt-level), or a
/// note that none is.
pub open spec fn release_profile_lines(p: ReleaseProfileReport) -> Seq<Seq<char>> {
    seq!["  release profile: "@ + p.profile_manifest_path@] + if !(p.opt_level is Some || p.debug is Some
        || p.lto is Some || p.codegen_units is Some || p.panic is Some || p.strip is Some) {
        seq!["    no explicit [profile.release] settings"@]
    } else {
        value_line("    strip: "@, p.strip) + value_line("    debug: "@, p.debug) + value_line(
            "    lto: "@,
            p.lto,
        ) + match p.codegen_units {
            Some(n) => seq!["    codegen-units: "@ + nat_decimal(n as nat)],
            None => Seq::empty(),
        } + match p.panic {
            Some(s) => seq!["    panic: "@ + s@],
            None => Seq::empty(),
        } + value_line("    opt-level: "@, p.opt_level)
    }
}

fn push_value_line(lines: &mut Vec<String>, label: &str, value: &Option<ProfileValue>)
    ensures
        views(final(lines)@) == views(old(lines)@) + value_line(label@, *value),
{
    let ghost before = views(lines@);
    match value {
        Some(v) => {
            let text = v.display_string();
            push_line(lines, concat2(label, text.as_str()));
        },
        None => {},
    }
    assert(views(lines@) =~= before + value_line(label@, *value));
}

/// Appends the lines of a release profile.
pub fn render_release_profile(lines: &mut Vec<String>, profile: &ReleaseProfileReport)
    ensures
        views(final(lines)@) == views(old(lines)@) + release_profile_lines(*profile),
{
    let ghost start = views(lines@);
    push_line(lines, concat2("  release profile: ", profile.profile_manifest_path.as_str()));
    if !profile.has_explicit_settings() {
        push_line(lines, String::from_str("    no explicit [profile.release] settings"));
        assert(views(lines@) =~= start + release_profile_lines(*profile));
        return;
    }
    let ghost s0 = views(lines@);
    push_value_line(lines, "    strip: ", &profile.strip);
    let ghost s1 = views(lines@);
    push_value_line(lines, "    debug: ", &profile.debug);
    let ghost s2 = views(lines@);
    push_value_line(lines, "    lto: ", &profile.lto);
    let ghost s3 = views(lines@);
    match profile.codegen_units {
        Some(n) => {
            let digits = u64_to_decimal(n);
            push_line(lines, concat2("    codegen-units: ", digits.as_str()));
        },
        None => {},
    }
    let ghost s4 = views(lines@);
    match &profile.panic {
        Some(p) => {
            push_line(lines, concat2("    panic: ", p.as_str()));
        },
        None => {},
    }
    let ghost s5 = views(lines@);
    push_value_line(lines, "    opt-level: ", &profile.opt_level);
    assert(views(lines@) =~= start + release_profile_lines(*profile));
}

// ------------------------------------------------------------- cargo report

/// The line of the package, when there is one.
pub open spec fn package_lines(package: Option<PackageReport>) -> Seq<Seq<char>> {
    match package {
        Some(p) => match p.edition {
            Some(e) => seq!["  package: "@ + p.name@ + " "@ + p.version@ + " (edition "@ + e@ + ")"@],
            None => seq!["  package: "@ + p.name@ + " "@ + p.version@],
        },
        None => Seq::empty(),
    }
}

/// The line of the lockfile: its path and package count, or that there is none.
pub open spec fn lockfile_line(lockfile: Option<LockfileReport>) -> Seq<Seq<char>> {
    match lockfile {
        Some(l) => seq!["  lockfile: "@ + l.path@ + " ("@ + nat_decimal(l.package_count as nat) + " packages)"@],
        None => seq!["  lockfile: not found"@],
    }
}

/// The lines of the Cargo context.
pub open spec fn cargo_report_lines(c: CargoReport) -> Seq<Seq<char>> {
    seq![
        "cargo:"@,
        "  manifest: "@ + c.manifest_path@,
        "  package root: "@ + c.package_root@,
        "  workspace root: "@ + c.workspace_root@,
    ] + package_lines(c.package) + lockfile_line(c.lockfile) + release_profile_lines(c.release_profile)
}

/// Appends the lines of the Cargo context.
pub fn render_cargo_report(lines: &mut Vec<String>, cargo: &CargoReport)
    ensures
        views(final(lines)@) == views(old(lines)@) + cargo_report_lines(*cargo),
{
    let ghost start = views(lines@);
    push_line(lines, String::from_str("cargo:"));
    push_line(lines, concat2("  manifest: ", cargo.manifest_path.as_str()));
    push_line(lines, concat2("  package root: ", cargo.package_root.as_str()));
    push_line(lines, concat2("  workspace root: ", cargo.workspace_root.as_str()));
    let ghost s0 = views(lines@);
    match &cargo.package {
        Some(p) => {
            let mut line = concat3("  package: ", p.name.as_str(), " ");
            line.append(p.version.as_str());
            match &p.edition {
                Some(e) => {
                    line.append(" (edition ");
                    line.append(e.as_str());
                    line.append(")");
                },
                None => {},
            }
            push_line(lines, line);
        },
        None => {},
    }
    let ghost s1 = views(lines@);
    match &cargo.lockfile {
        Some(l) => {
            let mut line = concat3("  lockfile: ", l.path.as_str(), " (");
            let count = usize_to_decimal(l.package_count);
            line.append(count.as_str());
            line.append(" packages)");
            push_line(lines, line);
        },
        None => {
            push_line(lines, String::from_str("  lockfile: not found"));
        },
    }
    let ghost s2 = views(lines@);
    assert(s2 =~= start + seq![
        "cargo:"@,
        "  manifest: "@ + cargo.manifest_path@,
        "  package root: "@ + cargo.package_root@,
        "  workspace root: "@ + cargo.workspace_root@,
    ] + package_lines(cargo.package) + lockfile_line(cargo.lockfile));
    render_release_profile(lines, &cargo.release_profile);
    assert(views(lines@) =~= start + cargo_report_lines(*cargo));
}

// ------------------------------------------------------------- suggestions

/// The five lines of the suggestion numbered `number`.
pub open spec fn suggestion_block(number: nat, s: SuggestionModel) -> Seq<Seq<char>> {
    seq![
        "  "@ + nat_decimal(number) + ". "@ + s.title,
        "     confidence: "@ + confidence_name(s.confidence),
        "     evidence: "@ + s.evidence,
        "     tradeoff: "@ + s.tradeoff,
        "     action: "@ + s.action,
    ]
}

/// The blocks of the suggestions, numbered from 1.
pub open spec fn suggestion_blocks(s: Seq<SuggestionModel>) -> Seq<Seq<char>>
    decreases s.len(),
{
    if s.len() == 0 {
        Seq::empty()
    } else {
        suggestion_blocks(s.drop_last()) + suggestion_block(s.len(), s.last())
    }
}

/// The lines of the suggestions: none when there is none, otherwise a
/// heading and one numbered block each.
pub open spec fn suggestion_lines(s: Seq<SuggestionModel>) -> Seq<Seq<char>> {
    if s.len() == 0 {
        Seq::empty()
    } else {
        seq!["suggestions:"@] + suggestion_blocks(s)
    }
}

/// Appends the lines of the suggestions.
pub fn render_suggestions(lines: &mut Vec<String>, suggestions: &Vec<SuggestionReport>)
    ensures
        views(final(lines)@) == views(old(lines)@) + suggestion_lines(suggestion_views(suggestions@)),
{
    let ghost start = views(lines@);
    let ghost all = suggestion_views(suggestions@);
    if suggestions.len() == 0 {
        assert(views(lines@) =~= start + suggestion_lines(all));
        return;
    }
    push_line(lines, String::from_str("suggestions:"));
    let mut i: usize = 0;
    assert(suggestion_blocks(all.take(0)) =~= Seq::<Seq<char>>::empty());
    while i < suggestions.len()
        invariant
            0 <= i <= suggestions.len(),
            all == suggestion_views(suggestions@),
            views(lines@) == start + seq!["suggestions:"@] + suggestion_blocks(all.take(i as int)),
        decreases suggestions.len() - i,
    {
        let s = &suggestions[i];
        assert(all.take(i + 1).drop_last() =~= all.take(i as int));
        assert(all.take(i + 1).last() == s@);
        let ghost before = views(lines@);
        let number = usize_to_decimal(i + 1);
        let mut first = concat2("  ", number.as_str());
        first.append(". ");
        first.append(s.title.as_str());
        push_line(lines, first);
        push_line(lines, concat2("     confidence: ", s.confidence.as_str()));
        push_line(lines, concat2("     evidence: ", s.evidence.as_str()));
        push_line(lines, concat2("     tradeoff: ", s.tradeoff.as_str()));
        push_line(lines, concat2("     action: ", s.action.as_str()));
        assert(views(lines@) =~= before + suggestion_block((i + 1) as nat, s@));
        i = i + 1;
    }
    assert(all.take(suggestions.len() as int) =~= all);
}


// ------------------------------------------------------------- inspect report

/// The line of a section: name, size and address.
pub open spec fn section_line(s: SectionModel) -> Seq<char> {
    "  "@ + s.name + ": "@ + nat_decimal(s.size_bytes as nat) + " bytes at 0x"@ + nat_hex(s.address as nat)
}

/// The lines of the sections.
pub open spec fn section_lines(s: Seq<SectionModel>) -> Seq<Seq<char>> {
    s.map_values(|x: SectionModel| section_line(x))
}

/// The lines of a recognized object: format, architecture, byte order, entry
/// address, debug symbols, then its sections (or that there is none) and how
/// many were left out.
pub open spec fn object_lines(o: ObjectReport) -> Seq<Seq<char>> {
    seq![
        "object: "@ + o.format@,
        "architecture: "@ + o.architecture@,
        "endianness: "@ + o.endianness@,
        "entry: 0x"@ + nat_hex(o.entry as nat),
        "debug symbols: "@ + if o.has_debug_symbols { "yes"@ } else { "no"@ },
    ] + if o.sections.len() == 0 {
        seq!["sections: none reported"@]
    } else {
        seq!["sections:"@] + section_lines(section_views(o.sections@)) + if o.sections_omitted > 0 {
            seq!["  ... "@ + nat_decimal(o.sections_omitted as nat) + " more sections omitted"@]
        } else {
            Seq::empty()
        }
    }
}

/// The lines of the report of `inspect`, whose size in MiB reads `size_mib`.
pub open spec fn text_report_lines(r: InspectReport, size_mib: Seq<char>) -> Seq<Seq<char>> {
    seq!["path: "@ + r.path@, "size: "@ + nat_decimal(r.file_size_bytes as nat) + " bytes ("@ + size_mib + " MiB)"@]
        + match r.object {
        Some(o) => object_lines(o),
        None => seq!["object: not recognized"@],
    } + match r.cargo {
        Some(c) => cargo_report_lines(c),
        None => Seq::empty(),
    } + suggestion_lines(suggestion_views(r.suggestions@))
}

fn render_object(lines: &mut Vec<String>, object: &ObjectReport)
    ensures
        views(final(lines)@) == views(old(lines)@) + object_lines(*object),
{
    let ghost start = views(lines@);
    push_line(lines, concat2("object: ", object.format.as_str()));
    push_line(lines, concat2("architecture: ", object.architecture.as_str()));
    push_line(lines, concat2("endianness: ", object.endianness.as_str()));
    let entry = u64_to_hex(object.entry);
    push_line(lines, concat2("entry: 0x", entry.as_str()));
    push_line(lines, concat2("debug symbols: ", crate::inspect::yes_no(object.has_debug_symbols)));
    let ghost head = views(lines@);
    if object.sections.len() == 0 {
        push_line(lines, String::from_str("sections: none reported"));
        assert(views(lines@) =~= start + object_lines(*object));
        return;
    }
    push_line(lines, String::from_str("sections:"));
    let ghost all = section_views(object.sections@);
    let mut i: usize = 0;
    while i < object.sections.len()
        invariant
            0 <= i <= object.sections.len(),
            all == section_views(object.sections@),
            views(lines@) == head + seq!["sections:"@] + section_lines(all.take(i as int)),
        decreases object.sections.len() - i,
    {
        let section = &object.sections[i];
        let mut line = concat3("  ", section.name.as_str(), ": ");
        let size = u64_to_decimal(section.size_bytes);
        line.append(size.as_str());
        line.append(" bytes at 0x");
        let address = u64_to_hex(section.address);
        line.append(address.as_str());
        assert(all[i as int] == section@);
        push_line(lines, line);
        assert(section_lines(all.take(i + 1)) =~= section_lines(all.take(i as int)).push(section_line(section@)));
        i = i + 1;
    }
    assert(all.take(object.sections.len() as int) =~= all);
    let ghost body = views(lines@);
    if object.sections_omitted > 0 {
        let count = usize_to_decimal(object.sections_omitted);
        push_line(lines, concat3("  ... ", count.as_str(), " more sections omitted"));
    }
    assert(views(lines@) =~= start + object_lines(*object));
}

/// The lines of the report of `inspect`, whose size in MiB reads `size_mib`.
pub fn render_text_report(report: &InspectReport, size_mib: &str) -> (res: Vec<String>)
    ensures
        views(res@) == text_report_lines(*report, size_mib@),
{
    let mut lines: Vec<String> = Vec::new();
    push_line(&mut lines, concat2("path: ", report.path.as_str()));
    let size = u64_to_decimal(report.file_size_bytes);
    let mut line = concat3("size: ", size.as_str(), " bytes (");
    line.append(size_mib);
    line.append(" MiB)");
    push_line(&mut lines, line);
    let ghost s0 = views(lines@);
    match &report.object {
        Some(o) => render_object(&mut lines, o),
        None => push_line(&mut lines, String::from_str("object: not recognized")),
    }
    let ghost s1 = views(lines@);
    match &report.cargo {
        Some(c) => render_cargo_report(&mut lines, c),
        None => {},
    }
    let ghost s2 = views(lines@);
    render_suggestions(&mut lines, &report.suggestions);
    assert(views(lines@) =~= text_report_lines(*report, size_mib@));
    lines
}

// ------------------------------------------------------------- diff report

/// The lines of one side of a diff, labelled `label`, whose size in MiB reads `size_mib`.
pub open spec fn binary_summary_lines(label: Seq<char>, b: DiffBinaryReport, size_mib: Seq<char>) -> Seq<Seq<char>> {
    seq![label + ": "@ + b.path@, "  size: "@ + nat_decimal(b.file_size_bytes as nat) + " bytes ("@ + size_mib + " MiB)"@]
        + match b.object {
        Some(o) => seq![
            "  object: "@ + o.format@ + " "@ + o.architecture@ + " "@ + o.endianness@,
            "  sections: "@ + nat_decimal(o.total_sections as nat),
        ],
        None => seq!["  object: not recognized"@],
    }
}

/// Appends the lines of one side of a diff.
pub fn render_binary_summary(lines: &mut Vec<String>, label: &str, binary: &DiffBinaryReport, size_mib: &str)
    ensures
        views(final(lines)@) == views(old(lines)@) + binary_summary_lines(label@, *binary, size_mib@),
{
    let ghost start = views(lines@);
    push_line(lines, concat3(label, ": ", binary.path.as_str()));
    let size = u64_to_decimal(binary.file_size_bytes);
    let mut line = concat3("  size: ", size.as_str(), " bytes (");
    line.append(size_mib);
    line.append(" MiB)");
    push_line(lines, line);
    match &binary.object {
        Some(o) => {
            let mut line = concat3("  object: ", o.format.as_str(), " ");
            line.append(o.architecture.as_str());
            line.append(" ");
            line.append(o.endianness.as_str());
            push_line(lines, line);
            let total = usize_to_decimal(o.total_sections);
            push_line(lines, concat2("  sections: ", total.as_str()));
        },
        None => push_line(lines, String::from_str("  object: not recognized")),
    }
    assert(views(lines@) =~= start + binary_summary_lines(label@, *binary, size_mib@));
}

/// The line of a section delta.
pub open spec fn delta_line(d: DeltaModel) -> Seq<char> {
    "  "@ + d.name + ": "@ + plus_decimal(d.delta_bytes as int) + " bytes ("@ + nat_decimal(d.old_size_bytes as nat)
        + " -> "@ + nat_decimal(d.new_size_bytes as nat) + ", "@ + status_name(d.status) + ")"@
}

/// The lines of the section deltas.
pub open spec fn delta_lines(s: Seq<DeltaModel>) -> Seq<Seq<char>> {
    s.map_values(|d: DeltaModel| delta_line(d))
}

/// The lines of a diff, whose sizes in MiB read `old_mib`, `new_mib` and,
/// signed, `delta_mib`.
pub open spec fn diff_report_lines(r: DiffReport, old_mib: Seq<char>, new_mib: Seq<char>, delta_mib: Seq<char>) -> Seq<Seq<char>> {
    binary_summary_lines("old"@, r.old, old_mib) + binary_summary_lines("new"@, r.new, new_mib) + seq![
        "file size delta: "@ + plus_decimal(r.file_size_delta_bytes as int) + " bytes ("@ + delta_mib + " MiB)"@,
    ] + if r.section_deltas.len() == 0 {
        if r.old.object is Some || r.new.object is Some {
            seq!["section deltas: none"@]
        } else {
            seq!["section deltas: unavailable (neither input is a recognized object)"@]
        }
    } else {
        seq!["section deltas:"@] + delta_lines(delta_views(r.section_deltas@)) + if r.section_deltas_omitted > 0 {
            seq!["  ... "@ + nat_decimal(r.section_deltas_omitted as nat) + " more section deltas omitted"@]
        } else {
            Seq::empty()
        }
    }
}

fn render_deltas(lines: &mut Vec<String>, deltas: &Vec<SectionDeltaReport>)
    ensures
        views(final(lines)@) == views(old(lines)@) + delta_lines(delta_views(deltas@)),
{
    let ghost start = views(lines@);
    let ghost all = delta_views(deltas@);
    let mut i: usize = 0;
    assert(delta_lines(all.take(0)) =~= Seq::<Seq<char>>::empty());
    while i < deltas.len()
        invariant
            0 <= i <= deltas.len(),
            all == delta_views(deltas@),
            views(lines@) == start + delta_lines(all.take(i as int)),
        decreases deltas.len() - i,
    {
        let d = &deltas[i];
        let mut line = concat3("  ", d.name.as_str(), ": ");
        let delta = i64_to_plus_decimal(d.delta_bytes);
        line.append(delta.as_str());
        line.append(" bytes (");
        let old_size = u64_to_decimal(d.old_size_bytes);
        line.append(old_size.as_str());
        line.append(" -> ");
        let new_size = u64_to_decimal(d.new_size_bytes);
        line.append(new_size.as_str());
        line.append(", ");
        line.append(d.status.as_str());
        line.append(")");
        assert(all[i as int] == d@);
        push_line(lines, line);
        assert(delta_lines(all.take(i + 1)) =~= delta_lines(all.take(i as int)).push(delta_line(d@)));
        i = i + 1;
    }
    assert(all.take(deltas.len() as int) =~= all);
}

/// The lines of a diff.
pub fn render_diff_report(report: &DiffReport, old_mib: &str, new_mib: &str, delta_mib: &str) -> (res: Vec<String>)
    ensures
        views(res@) == diff_report_lines(*report, old_mib@, new_mib@, delta_mib@),
{
    let mut lines: Vec<String> = Vec::new();
    render_binary_summary(&mut lines, "old", &report.old, old_mib);
    render_binary_summary(&mut lines, "new", &report.new, new_mib);
    let delta = i64_to_plus_decimal(report.file_size_delta_bytes);
    let mut line = concat3("file size delta: ", delta.as_str(), " bytes (");
    line.append(delta_mib);
    line.append(" MiB)");
    push_line(&mut lines, line);
    let ghost head = views(lines@);
    if report.section_deltas.len() == 0 {
        if report.old.object.is_some() || report.new.object.is_some() {
            push_line(&mut lines, String::from_str("section deltas: none"));
        } else {
            push_line(
                &mut lines,
                String::from_str("section deltas: unavailable (neither input is a recognized object)"),
            );
        }
        assert(views(lines@) =~= diff_report_lines(*report, old_mib@, new_mib@, delta_mib@));
        return lines;
    }
    push_line(&mut lines, String::from_str("section deltas:"));
    render_deltas(&mut lines, &report.section_deltas);
    let ghost body = views(lines@);
    if report.section_deltas_omitted > 0 {
        let count = usize_to_decimal(report.section_deltas_omitted);
        push_line(&mut lines, concat3("  ... ", count.as_str(), " more section deltas omitted"));
    }
    assert(views(lines@) =~= diff_report_lines(*report, old_mib@, new_mib@, delta_mib@));
    lines
}

// ------------------------------------------------------------- attribution report

/// The line of a crate.
pub open spec fn crate_line(c: CrateAttributionReport) -> Seq<char> {
    "  "@ + c.name@ + ": "@ + nat_decimal(c.size_bytes as nat) + " bytes"@
}

/// The lines of an attribution report, whose sizes in MiB read `file_mib` and `text_mib`.
pub open spec fn attribution_report_lines(r: AttributionReport, file_mib: Seq<char>, text_mib: Seq<char>) -> Seq<Seq<char>> {
    seq![
        "manifest: "@ + r.manifest_path@,
        "package root: "@ + r.package_root@,
        "tool: "@ + r.tool@,
        "scope: "@ + r.scope@,
        "file size: "@ + nat_decimal(r.file_size_bytes as nat) + " bytes ("@ + file_mib + " MiB)"@,
        ".text size: "@ + nat_decimal(r.text_section_size_bytes as nat) + " bytes ("@ + text_mib + " MiB)"@,
    ] + if r.crates.len() == 0 {
        seq!["crate attribution: none reported"@]
    } else {
        seq!["crate attribution:"@] + r.crates@.map_values(|c: CrateAttributionReport| crate_line(c)) + if r.crates_omitted > 0 {
            seq!["  ... "@ + nat_decimal(r.crates_omitted as nat) + " more crates omitted"@]
        } else {
            Seq::empty()
        }
    }
}

fn size_line(label: &str, bytes: u64, mib: &str) -> (res: String)
    ensures
        res@ == label@ + nat_decimal(bytes as nat) + " bytes ("@ + mib@ + " MiB)"@,
{
    let digits = u64_to_decimal(bytes);
    let mut line = concat3(label, digits.as_str(), " bytes (");
    line.append(mib);
    line.append(" MiB)");
    line
}

/// The lines of an attribution report.
pub fn render_attribution_report(report: &AttributionReport, file_mib: &str, text_mib: &str) -> (res: Vec<String>)
    ensures
        views(res@) == attribution_report_lines(*report, file_mib@, text_mib@),
{
    let mut lines: Vec<String> = Vec::new();
    push_line(&mut lines, concat2("manifest: ", report.manifest_path.as_str()));
    push_line(&mut lines, concat2("package root: ", report.package_root.as_str()));
    push_line(&mut lines, concat2("tool: ", report.tool.as_str()));
    push_line(&mut lines, concat2("scope: ", report.scope.as_str()));
    push_line(&mut lines, size_line("file size: ", report.file_size_bytes, file_mib));
    push_line(&mut lines, size_line(".text size: ", report.text_section_size_bytes, text_mib));
    let ghost head = views(lines@);
    if report.crates.len() == 0 {
        push_line(&mut lines, String::from_str("crate attribution: none reported"));
        assert(views(lines@) =~= attribution_report_lines(*report, file_mib@, text_mib@));
        return lines;
    }
    push_line(&mut lines, String::from_str("crate attribution:"));
    let ghost all = report.crates@.map_values(|c: CrateAttributionReport| crate_line(c));
    let mut i: usize = 0;
    while i < report.crates.len()
        invariant
            0 <= i <= report.crates.len(),
            all == report.crates@.map_values(|c: CrateAttributionReport| crate_line(c)),
            views(lines@) == head + seq!["crate attribution:"@] + all.take(i as int),
        decreases report.crates.len() - i,
    {
        let c = &report.crates[i];
        let mut line = concat3("  ", c.name.as_str(), ": ");
        let size = u64_to_decimal(c.size_bytes);
        line.append(size.as_str());
        line.append(" bytes");
        push_line(&mut lines, line);
        assert(all.take(i + 1) =~= all.take(i as int).push(crate_line(*c)));
        i = i + 1;
    }
    assert(all.take(report.crates.len() as int) =~= all);
    let ghost body = views(lines@);
    if report.crates_omitted > 0 {
        let count = usize_to_decimal(report.crates_omitted);
        push_line(&mut lines, concat3("  ... ", count.as_str(), " more crates omitted"));
    }
    assert(views(lines@) =~= attribution_report_lines(*report, file_mib@, text_mib@));
    lines
}


/// The suggestion blocks hold five lines per suggestion, and the block of
/// the `k`-th suggestion (from 0) starts with its number `k + 1` and title,
/// then its confidence, evidence, tradeoff and action.
proof fn lemma_suggestion_blocks(s: Seq<SuggestionModel>)
    ensures
        suggestion_blocks(s).len() == 5 * s.len(),
        forall|k: int| #![trigger s[k]] 0 <= k < s.len() ==> {
            &&& suggestion_blocks(s)[5 * k] == "  "@ + nat_decimal((k + 1) as nat) + ". "@ + s[k].title
            &&& suggestion_blocks(s)[5 * k + 1] == "     confidence: "@ + confidence_name(s[k].confidence)
            &&& suggestion_blocks(s)[5 * k + 2] == "     evidence: "@ + s[k].evidence
            &&& suggestion_blocks(s)[5 * k + 3] == "     tradeoff: "@ + s[k].tradeoff
            &&& suggestion_blocks(s)[5 * k + 4] == "     action: "@ + s[k].action
        },
    decreases s.len(),
{
    if s.len() > 0 {
        let init = s.drop_last();
        lemma_suggestion_blocks(init);
        let bi = suggestion_blocks(init);
        let last = suggestion_block(s.len(), s.last());
        let b = suggestion_blocks(s);
        assert(b == bi + last);
        assert forall|k: int| #![trigger s[k]] 0 <= k < s.len() implies {
            &&& b[5 * k] == "  "@ + nat_decimal((k + 1) as nat) + ". "@ + s[k].title
            &&& b[5 * k + 1] == "     confidence: "@ + confidence_name(s[k].confidence)
            &&& b[5 * k + 2] == "     evidence: "@ + s[k].evidence
            &&& b[5 * k + 3] == "     tradeoff: "@ + s[k].tradeoff
            &&& b[5 * k + 4] == "     action: "@ + s[k].action
        } by {
            if k < init.len() {
                assert(s[k] == init[k]);
                assert(5 * k + 4 < 5 * init.len());
                assert(bi[5 * k] == "  "@ + nat_decimal((k + 1) as nat) + ". "@ + init[k].title);
                assert(b[5 * k] == bi[5 * k]);
                assert(b[5 * k + 1] == bi[5 * k + 1]);
                assert(b[5 * k + 2] == bi[5 * k + 2]);
                assert(b[5 * k + 3] == bi[5 * k + 3]);
                assert(b[5 * k + 4] == bi[5 * k + 4]);
            } else {
                assert(k == init.len());
                assert(b[5 * k] == last[0]);
                assert(b[5 * k + 1] == last[1]);
                assert(b[5 * k + 2] == last[2]);
                assert(b[5 * k + 3] == last[3]);
                assert(b[5 * k + 4] == last[4]);
            }
        }
    }
}

/// The suggestion lines are a heading and then, for the `k`-th suggestion
/// (from 0), a block of five lines numbered `k + 1`: the numbers run
/// consecutively from 1, each with its suggestion's title and fields.
pub proof fn law_suggestions_numbered(s: Seq<SuggestionModel>)
    requires
        s.len() > 0,
    ensures
        suggestion_lines(s).len() == 1 + 5 * s.len(),
        suggestion_lines(s)[0] == "suggestions:"@,
        forall|k: int| #![trigger s[k]] 0 <= k < s.len() ==> {
            &&& suggestion_lines(s)[1 + 5 * k] == "  "@ + nat_decimal((k + 1) as nat) + ". "@ + s[k].title
            &&& suggestion_lines(s)[2 + 5 * k] == "     confidence: "@ + confidence_name(s[k].confidence)
            &&& suggestion_lines(s)[3 + 5 * k] == "     evidence: "@ + s[k].evidence
            &&& suggestion_lines(s)[4 + 5 * k] == "     tradeoff: "@ + s[k].tradeoff
            &&& suggestion_lines(s)[5 + 5 * k] == "     action: "@ + s[k].action
        },
{
    lemma_suggestion_blocks(s);
    let b = suggestion_blocks(s);
    assert forall|k: int| #![trigger s[k]] 0 <= k < s.len() implies {
        &&& suggestion_lines(s)[1 + 5 * k] == "  "@ + nat_decimal((k + 1) as nat) + ". "@ + s[k].title
        &&& suggestion_lines(s)[2 + 5 * k] == "     confidence: "@ + confidence_name(s[k].confidence)
        &&& suggestion_lines(s)[3 + 5 * k] == "     evidence: "@ + s[k].evidence
        &&& suggestion_lines(s)[4 + 5 * k] == "     tradeoff: "@ + s[k].tradeoff
        &&& suggestion_lines(s)[5 + 5 * k] == "     action: "@ + s[k].action
    } by {
        let l = suggestion_lines(s);
        assert(l == seq!["suggestions:"@] + b);
        assert(b[5 * k] == "  "@ + nat_decimal((k + 1) as nat) + ". "@ + s[k].title);
        assert(l[1 + 5 * k] == b[5 * k]);
        assert(l[2 + 5 * k] == b[5 * k + 1]);
        assert(l[3 + 5 * k] == b[5 * k + 2]);
        assert(l[4 + 5 * k] == b[5 * k + 3]);
        assert(l[5 + 5 * k] == b[5 * k + 4]);
    }
}

/// When a diff lists deltas and leaves some out, its text ends with the
/// number left out, `section_deltas_omitted`; for a report whose total is
/// the listed deltas plus the omitted ones, that is the total less the
/// listed ones. When none is left out, the text ends with the last delta.
pub proof fn law_diff_omitted_line(r: DiffReport, old_mib: Seq<char>, new_mib: Seq<char>, delta_mib: Seq<char>)
    requires
        r.section_deltas.len() > 0,
    ensures
        r.section_deltas_omitted > 0 ==> diff_report_lines(r, old_mib, new_mib, delta_mib).last() == "  ... "@
            + nat_decimal(r.section_deltas_omitted as nat) + " more section deltas omitted"@,
        r.section_deltas_omitted > 0 && r.total_section_deltas == r.section_deltas.len() + r.section_deltas_omitted
            ==> diff_report_lines(r, old_mib, new_mib, delta_mib).last() == "  ... "@ + nat_decimal(
            (r.total_section_deltas - r.section_deltas.len()) as nat,
        ) + " more section deltas omitted"@,
        r.section_deltas_omitted == 0 ==> diff_report_lines(r, old_mib, new_mib, delta_mib).last() == delta_line(
            r.section_deltas@.last()@,
        ),
{
    let head = binary_summary_lines("old"@, r.old, old_mib) + binary_summary_lines("new"@, r.new, new_mib) + seq![
        "file size delta: "@ + plus_decimal(r.file_size_delta_bytes as int) + " bytes ("@ + delta_mib + " MiB)"@,
    ];
    let deltas = delta_lines(delta_views(r.section_deltas@));
    let lines = diff_report_lines(r, old_mib, new_mib, delta_mib);
    if r.section_deltas_omitted > 0 {
        let tail = seq!["  ... "@ + nat_decimal(r.section_deltas_omitted as nat) + " more section deltas omitted"@];
        assert(lines == head + (seq!["section deltas:"@] + deltas + tail));
    } else {
        assert(lines == head + (seq!["section deltas:"@] + deltas + Seq::<Seq<char>>::empty()));
        assert(deltas.last() == delta_line(r.section_deltas@.last()@));
    }
}
} // verus!
