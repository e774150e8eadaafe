//! Crate-level attribution of the `.text` section, as `cargo-bloat` reports it.

use vstd::prelude::*;
use crate::limit::limit_outcome;
use crate::text::{chars_are, chars_of};

verus! {

/// A crate and the bytes of `.text` attributed to it, as `cargo-bloat` lists it.
pub struct CargoBloatCrate {
    pub name: String,
    pub size: u64,
}

/// What `cargo-bloat --crates --message-format json` prints.
pub struct CargoBloatCrateOutput {
    pub file_size: u64,
    pub text_section_size: u64,
    pub crates: Vec<CargoBloatCrate>,
}

/// A crate in an attribution report.
#[derive(Debug)]
pub struct CrateAttributionReport {
    pub name: String,
    pub size_bytes: u64,
}

/// What `attribution` reports.
pub struct AttributionReport {
    pub manifest_path: String,
    pub package_root: String,
    pub tool: String,
    pub scope: String,
    pub file_size_bytes: u64,
    pub text_section_size_bytes: u64,
    pub total_crates: usize,
    pub crates_omitted: usize,
    pub crates: Vec<CrateAttributionReport>,
}

/// The arguments given to the `cargo-bloat` program `program`: `bloat` first
/// when the program is `cargo` itself, then a release build, crate totals,
/// JSON output and no row limit, and `--bin <name>` when a binary is named.
pub open spec fn bloat_arguments(program: Seq<char>, binary_name: Option<Seq<char>>) -> Seq<Seq<char>> {
    (if program == "cargo"@ { seq!["bloat"@] } else { Seq::empty() }) + seq![
        "--release"@,
        "--crates"@,
        "--message-format"@,
        "json"@,
        "-n"@,
        "0"@,
    ] + match binary_name {
        Some(n) => seq!["--bin"@, n],
        None => Seq::empty(),
    }
}

/// The arguments to run `program` with.
pub fn cargo_bloat_arguments(program: &String, binary_name: &Option<String>) -> (res: Vec<String>)
    ensures
        crate::text::views(res@) == bloat_arguments(program@, crate::cli::opt_chars(*binary_name)),
{
    let mut args: Vec<String> = Vec::new();
    let chars = chars_of(program.as_str());
    if chars_are(&chars, "cargo") {
        args.push(String::from_str("bloat"));
    }
    args.push(String::from_str("--release"));
    args.push(String::from_str("--crates"));
    args.push(String::from_str("--message-format"));
    args.push(String::from_str("json"));
    args.push(String::from_str("-n"));
    args.push(String::from_str("0"));
    match binary_name {
        Some(n) => {
            args.push(String::from_str("--bin"));
            args.push(n.clone());
        },
        None => {},
    }
    assert(crate::text::views(args@) =~= bloat_arguments(program@, crate::cli::opt_chars(*binary_name)));
    args
}

/// The message for a failed `cargo-bloat` run whose trimmed error output is `stderr`.
pub open spec fn bloat_failure(stderr: Seq<char>) -> Seq<char> {
    if stderr.len() == 0 {
        "cargo-bloat failed without diagnostic output"@
    } else {
        "cargo-bloat failed: "@ + stderr
    }
}

/// The message for a failed `cargo-bloat` run.
pub fn cargo_bloat_failure_message(stderr: &str) -> (res: String)
    ensures
        res@ == bloat_failure(stderr@),
{
    let chars = chars_of(stderr);
    if chars.len() == 0 {
        String::from_str("cargo-bloat failed without diagnostic output")
    } else {
        let mut message = String::from_str("cargo-bloat failed: ");
        message.append(stderr);
        message
    }
}

/// The attribution report of the package whose manifest is at
/// `manifest_path` and whose root is `package_root`, from what `cargo-bloat`
/// printed: every crate it lists, in its order.
pub fn crate_attribution(manifest_path: String, package_root: String, parsed: CargoBloatCrateOutput) -> (res: AttributionReport)
    ensures
        res.manifest_path == manifest_path,
        res.package_root == package_root,
        res.tool@ == "cargo-bloat"@,
        res.scope@ == ".text section crate attribution from cargo-bloat --crates"@,
        res.file_size_bytes == parsed.file_size,
        res.text_section_size_bytes == parsed.text_section_size,
        res.crates.len() == parsed.crates.len(),
        forall|i: int| 0 <= i < res.crates.len() ==> {
            &&& (#[trigger] res.crates@[i]).name == parsed.crates@[i].name
            &&& res.crates@[i].size_bytes == parsed.crates@[i].size
        },
        res.total_crates == res.crates.len(),
        res.crates_omitted == 0,
{
    let mut crates: Vec<CrateAttributionReport> = Vec::new();
    let mut i: usize = 0;
    while i < parsed.crates.len()
        invariant
            0 <= i <= parsed.crates.len(),
            crates.len() == i,
            forall|k: int| 0 <= k < i ==> {
                &&& (#[trigger] crates@[k]).name == parsed.crates@[k].name
                &&& crates@[k].size_bytes == parsed.crates@[k].size
            },
        decreases parsed.crates.len() - i,
    {
        crates.push(CrateAttributionReport { name: parsed.crates[i].name.clone(), size_bytes: parsed.crates[i].size });
        i = i + 1;
    }
    let total_crates = crates.len();
    AttributionReport {
        manifest_path,
        package_root,
        tool: String::from_str("cargo-bloat"),
        scope: String::from_str(".text section crate attribution from cargo-bloat --crates"),
        file_size_bytes: parsed.file_size,
        text_section_size_bytes: parsed.text_section_size,
        total_crates,
        crates_omitted: 0,
        crates,
    }
}

impl AttributionReport {
    /// Keeps at most `limit` crates, the first ones, and records how many
    /// were dropped; no limit keeps the report as it is.
    pub fn apply_crate_limit(&mut self, limit: Option<usize>)
        ensures
            final(self).manifest_path == old(self).manifest_path,
            final(self).package_root == old(self).package_root,
            final(self).tool == old(self).tool,
            final(self).scope == old(self).scope,
            final(self).file_size_bytes == old(self).file_size_bytes,
            final(self).text_section_size_bytes == old(self).text_section_size_bytes,
            final(self).total_crates == old(self).total_crates,
            (final(self).crates@, final(self).crates_omitted) == limit_outcome(
                old(self).crates@,
                old(self).crates_omitted,
                limit,
            ),
    {
        let limit = match limit {
            None => {
                return;
            },
            Some(l) => l,
        };
        if self.crates.len() <= limit {
            return;
        }
        self.crates_omitted = self.crates.len() - limit;
        self.crates.truncate(limit);
    }
}

} // verus!
