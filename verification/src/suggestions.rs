//! Conservative shrink suggestions, each backed by evidence from the release
//! profile, the lockfile, the direct dependencies or the object file.

use vstd::prelude::*;
use crate::cargo::{
    CargoReport, DependencyModel, LockfilePackageReport, LockfileReport, ManifestDependencyReport,
    ProfileValue, ReleaseProfileReport, dependency_views, profile_text,
};
use crate::diff::insert_name;
use crate::object_report::ObjectReport;
use crate::sorting::{insert_by, lemma_insert_by_position, sort_by, sorted_names};
use crate::text::{chars_are, chars_of, int_decimal, join, join_strings, nat_decimal, u64_to_decimal, views};

verus! {

/// How sure a suggestion is.
#[derive(Clone, Copy, Debug, PartialEq, Eq)]
pub enum SuggestionConfidence {
    High,
    Medium,
    Low,
}

/// The rank of a confidence: high first.
pub open spec fn confidence_rank(c: SuggestionConfidence) -> u8 {
    match c {
        SuggestionConfidence::High => 0,
        SuggestionConfidence::Medium => 1,
        SuggestionConfidence::Low => 2,
    }
}

/// The lower-case name of a confidence.
pub open spec fn confidence_name(c: SuggestionConfidence) -> Seq<char> {
    match c {
        SuggestionConfidence::High => "high"@,
        SuggestionConfidence::Medium => "medium"@,
        SuggestionConfidence::Low => "low"@,
    }
}

impl SuggestionConfidence {
    /// The rank of the confidence: 0 for high, 1 for medium, 2 for low.
    pub fn rank(self) -> (res: u8)
        ensures
            res == confidence_rank(self),
    {
        match self {
            SuggestionConfidence::High => 0,
            SuggestionConfidence::Medium => 1,
            SuggestionConfidence::Low => 2,
        }
    }

    /// The lower-case name of the confidence.
    pub fn as_str(self) -> (res: &'static str)
        ensures
            res@ == confidence_name(self),
    {
        match self {
            SuggestionConfidence::High => "high",
            SuggestionConfidence::Medium => "medium",
            SuggestionConfidence::Low => "low",
        }
    }
}

/// A suggestion.
#[derive(Debug)]
pub struct SuggestionReport {
    pub title: String,
    pub confidence: SuggestionConfidence,
    pub evidence: String,
    pub tradeoff: String,
    pub action: String,
}

/// The mathematical value of a `SuggestionReport`.
pub struct SuggestionModel {
    pub title: Seq<char>,
    pub confidence: SuggestionConfidence,
    pub evidence: Seq<char>,
    pub tradeoff: Seq<char>,
    pub action: Seq<char>,
}

impl View for SuggestionReport {
    type V = SuggestionModel;

    open spec fn view(&self) -> SuggestionModel {
        SuggestionModel {
            title: self.title@,
            confidence: self.confidence,
            evidence: self.evidence@,
            tradeoff: self.tradeoff@,
            action: self.action@,
        }
    }
}

/// The views of a sequence of suggestions.
pub open spec fn suggestion_views(s: Seq<SuggestionReport>) -> Seq<SuggestionModel> {
    s.map_values(|x: SuggestionReport| x@)
}

/// `x` alone when `c` holds; nothing otherwise.
pub open spec fn when(c: bool, x: SuggestionModel) -> Seq<SuggestionModel> {
    if c {
        seq![x]
    } else {
        Seq::empty()
    }
}

// ------------------------------------------------------------- profile values

/// Whether a profile value turns its setting on: `true`, a positive integer,
/// or any string but `"false"`, `"0"` and `"none"`.
pub open spec fn value_enabled(v: ProfileValue) -> bool {
    match v {
        ProfileValue::Bool(b) => b,
        ProfileValue::Integer(n) => n > 0,
        ProfileValue::String(s) => s@ != "false"@ && s@ != "0"@ && s@ != "none"@,
    }
}

/// Whether a profile value turns its setting off: `false`, zero, or one of
/// the strings `"false"`, `"0"` and `"none"`.
pub open spec fn value_disabled(v: ProfileValue) -> bool {
    match v {
        ProfileValue::Bool(b) => !b,
        ProfileValue::Integer(n) => n == 0,
        ProfileValue::String(s) => s@ == "false"@ || s@ == "0"@ || s@ == "none"@,
    }
}

/// Whether an opt-level favors speed: an integer of at least 2, or `"2"` or `"3"`.
pub open spec fn value_favors_speed(v: ProfileValue) -> bool {
    match v {
        ProfileValue::Integer(n) => n >= 2,
        ProfileValue::String(s) => s@ == "2"@ || s@ == "3"@,
        ProfileValue::Bool(_) => false,
    }
}

/// Whether a profile value turns its setting on.
pub fn profile_value_enabled(value: &ProfileValue) -> (res: bool)
    ensures
        res == value_enabled(*value),
{
    match value {
        ProfileValue::Bool(b) => *b,
        ProfileValue::Integer(n) => *n > 0,
        ProfileValue::String(s) => {
            let c = chars_of(s.as_str());
            !chars_are(&c, "false") && !chars_are(&c, "0") && !chars_are(&c, "none")
        },
    }
}

/// Whether a profile value turns its setting off.
pub fn profile_value_disabled(value: &ProfileValue) -> (res: bool)
    ensures
        res == value_disabled(*value),
{
    match value {
        ProfileValue::Bool(b) => !*b,
        ProfileValue::Integer(n) => *n == 0,
        ProfileValue::String(s) => {
            let c = chars_of(s.as_str());
            chars_are(&c, "false") || chars_are(&c, "0") || chars_are(&c, "none")
        },
    }
}

/// Whether an opt-level favors speed over size.
pub fn opt_level_favors_speed(value: &ProfileValue) -> (res: bool)
    ensures
        res == value_favors_speed(*value),
{
    match value {
        ProfileValue::Integer(n) => *n >= 2,
        ProfileValue::String(s) => {
            let c = chars_of(s.as_str());
            chars_are(&c, "2") || chars_are(&c, "3")
        },
        ProfileValue::Bool(_) => false,
    }
}

/// A profile value is enabled exactly when it is not disabled, except for
/// negative integers, which are neither.
pub proof fn law_enabled_is_not_disabled(v: ProfileValue)
    requires
        !(v matches ProfileValue::Integer(n) && n < 0),
    ensures
        value_enabled(v) == !value_disabled(v),
{
}

/// Whether some suggestion of `s` has the title `title`.
pub open spec fn has_title(s: Seq<SuggestionModel>, title: Seq<char>) -> bool {
    exists|i: int| 0 <= i < s.len() && #[trigger] s[i].title == title
}

/// An integer setting is on exactly when it is positive and off exactly when
/// it is zero. So `debug = n` with a positive `n` always brings the debug
/// suggestion, first and with high confidence, whose evidence names `n`; and
/// `strip = n` or `lto = n` brings the strip or LTO suggestion exactly when
/// `n` is zero.
pub proof fn law_integer_settings(n: i64, has_debug_sections: bool, p: ReleaseProfileReport)
    ensures
        value_enabled(ProfileValue::Integer(n)) <==> n > 0,
        value_disabled(ProfileValue::Integer(n)) <==> n == 0,
        p.debug == Some(ProfileValue::Integer(n)) && n > 0 ==> {
            let s = profile_suggestions(has_debug_sections, p);
            &&& s.len() > 0
            &&& s[0].title == "Remove release debug information"@
            &&& s[0].confidence == SuggestionConfidence::High
            &&& !has_debug_sections ==> s[0].evidence == "[profile.release].debug is "@ + int_decimal(n as int) + "."@
        },
        p.strip == Some(ProfileValue::Integer(n)) ==> (has_title(
            profile_suggestions(has_debug_sections, p),
            "Strip symbols from release binaries"@,
        ) <==> n == 0),
        p.lto == Some(ProfileValue::Integer(n)) ==> (has_title(
            profile_suggestions(has_debug_sections, p),
            "Compare release builds with LTO enabled"@,
        ) <==> n == 0),
{
    reveal_strlit("Remove release debug information");
    reveal_strlit("Strip symbols from release binaries");
    reveal_strlit("Compare release builds with LTO enabled");
    reveal_strlit("Compare codegen-units = 1");
    reveal_strlit("Evaluate panic = \"abort\"");
    reveal_strlit("Compare a size-focused opt-level");
    let a = when(debug_wanted(has_debug_sections, p.debug), debug_suggestion(has_debug_sections, p.debug));
    let b = when(unset_or_disabled(p.strip), strip_suggestion(p.strip));
    let c = when(unset_or_disabled(p.lto), lto_suggestion(p.lto));
    let d = when(unset_or_many(p.codegen_units), codegen_suggestion(p.codegen_units));
    let e = when(panic_unwinds(p.panic), panic_suggestion(p.panic));
    let f = when(unset_or_speed(p.opt_level), opt_level_suggestion(p.opt_level));
    let s = profile_suggestions(has_debug_sections, p);
    assert(s == a + b + c + d + e + f);
    let strip_title = "Strip symbols from release binaries"@;
    let lto_title = "Compare release builds with LTO enabled"@;
    if p.debug == Some(ProfileValue::Integer(n)) && n > 0 {
        assert(s[0] == a[0]);
    }
    // Where each part's suggestion stands in `s`.
    let ab: int = (a.len() + b.len()) as int;
    let abc: int = ab + c.len();
    assert(strip_title.len() == 35 && lto_title.len() == 39);
    assert forall|k: int| 0 <= k < a.len() implies #[trigger] a[k].title.len() == 32 by {
        assert(a[k] == debug_suggestion(has_debug_sections, p.debug));
    }
    assert forall|k: int| 0 <= k < b.len() implies #[trigger] b[k].title == strip_title by {
        assert(b[k] == strip_suggestion(p.strip));
    }
    assert forall|k: int| 0 <= k < c.len() implies #[trigger] c[k].title == lto_title by {
        assert(c[k] == lto_suggestion(p.lto));
    }
    assert forall|k: int| 0 <= k < d.len() implies #[trigger] d[k].title.len() == 25 by {
        assert(d[k] == codegen_suggestion(p.codegen_units));
    }
    assert forall|k: int| 0 <= k < e.len() implies #[trigger] e[k].title.len() == 24 by {
        assert(e[k] == panic_suggestion(p.panic));
    }
    assert forall|k: int| 0 <= k < f.len() implies #[trigger] f[k].title.len() == 32 by {
        assert(f[k] == opt_level_suggestion(p.opt_level));
    }
    assert forall|i: int| 0 <= i < s.len() implies {
        &&& (#[trigger] s[i].title == strip_title ==> a.len() <= i < ab)
        &&& (s[i].title == lto_title ==> ab <= i < abc)
    } by {
        if i < a.len() {
            assert(s[i] == a[i]);
        } else if i < ab {
            assert(s[i] == b[i - a.len()]);
        } else if i < abc {
            assert(s[i] == c[i - ab]);
        } else if i < abc + d.len() {
            assert(s[i] == d[i - abc]);
        } else if i < abc + d.len() + e.len() {
            assert(s[i] == e[i - abc - d.len()]);
        } else {
            assert(s[i] == f[i - abc - d.len() - e.len()]);
        }
    }
    if b.len() > 0 {
        assert(s[a.len() as int] == b[0]);
        assert(s[a.len() as int].title == strip_title);
    }
    if c.len() > 0 {
        assert(s[ab] == c[0]);
        assert(s[ab].title == lto_title);
    }
}

/// The evidence sentence of a release setting: its value, or `missing` when unset.
pub open spec fn setting_evidence(key: Seq<char>, value: Option<ProfileValue>, missing: Seq<char>) -> Seq<char> {
    match value {
        Some(v) => "[profile.release]."@ + key + " is "@ + profile_text(v) + "."@,
        None => "[profile.release]."@ + key + " "@ + missing + "."@,
    }
}

/// The evidence sentence of the release setting `key`.
pub fn profile_setting_evidence(key: &str, value: Option<&ProfileValue>, missing_text: &str) -> (res: String)
    ensures
        res@ == setting_evidence(key@, match value {
            Some(v) => Some(*v),
            None => None,
        }, missing_text@),
{
    let mut res = String::from_str("[profile.release].");
    res.append(key);
    match value {
        Some(v) => {
            res.append(" is ");
            let text = v.display_string();
            res.append(text.as_str());
        },
        None => {
            res.append(" ");
            res.append(missing_text);
        },
    }
    res.append(".");
    res
}

// ------------------------------------------------------------- profile suggestions

/// The debug-information suggestion, given whether the object has debug
/// sections and the `debug` setting.
pub open spec fn debug_suggestion(has_debug_sections: bool, debug: Option<ProfileValue>) -> SuggestionModel {
    SuggestionModel {
        title: "Remove release debug information"@,
        confidence: SuggestionConfidence::High,
        evidence: match debug {
            Some(v) => if has_debug_sections {
                "The inspected object has debug sections and [profile.release].debug is "@
                    + profile_text(v) + "."@
            } else {
                "[profile.release].debug is "@ + profile_text(v) + "."@
            },
            None => "The inspected object has debug sections."@,
        },
        tradeoff: "Disabling debug info reduces symbol detail in release artifacts; keep separate debuginfo if production debugging needs it."@,
        action: "Set [profile.release] debug = false for size-focused release builds and compare the binary."@,
    }
}

/// The symbol-stripping suggestion.
pub open spec fn strip_suggestion(strip: Option<ProfileValue>) -> SuggestionModel {
    SuggestionModel {
        title: "Strip symbols from release binaries"@,
        confidence: SuggestionConfidence::Medium,
        evidence: setting_evidence("strip"@, strip, "is not set"@),
        tradeoff: "Stripping symbols makes ad hoc debugging harder unless symbols are preserved separately."@,
        action: "Set [profile.release] strip = \"symbols\" or strip = true, then inspect the resulting binary."@,
    }
}

/// The LTO suggestion.
pub open spec fn lto_suggestion(lto: Option<ProfileValue>) -> SuggestionModel {
    SuggestionModel {
        title: "Compare release builds with LTO enabled"@,
        confidence: SuggestionConfidence::Medium,
        evidence: setting_evidence("lto"@, lto, "is not set"@),
        tradeoff: "LTO often increases release build time and can change optimization behavior, so measure the result."@,
        action: "Try [profile.release] lto = \"thin\" first, then compare size and runtime behavior."@,
    }
}

/// The codegen-units suggestion.
pub open spec fn codegen_suggestion(codegen_units: Option<u64>) -> SuggestionModel {
    SuggestionModel {
        title: "Compare codegen-units = 1"@,
        confidence: SuggestionConfidence::Medium,
        evidence: match codegen_units {
            Some(n) => "[profile.release].codegen-units is "@ + nat_decimal(n as nat) + "."@,
            None => "[profile.release].codegen-units is not set."@,
        },
        tradeoff: "A single codegen unit usually slows release builds because it gives LLVM less parallelism."@,
        action: "Set [profile.release] codegen-units = 1 for a size-focused build and compare the output."@,
    }
}

/// The abort-on-panic suggestion.
pub open spec fn panic_suggestion(panic: Option<String>) -> SuggestionModel {
    SuggestionModel {
        title: "Evaluate panic = \"abort\""@,
        confidence: SuggestionConfidence::Medium,
        evidence: match panic {
            Some(p) => "[profile.release].panic is "@ + p@ + "."@,
            None => "[profile.release].panic is not set."@,
        },
        tradeoff: "Abort-on-panic removes unwinding but is not appropriate when code relies on catching panics across unwind boundaries."@,
        action: "Set [profile.release] panic = \"abort\" only if aborting on panic fits the application."@,
    }
}

/// The size-focused opt-level suggestion.
pub open spec fn opt_level_suggestion(opt_level: Option<ProfileValue>) -> SuggestionModel {
    SuggestionModel {
        title: "Compare a size-focused opt-level"@,
        confidence: SuggestionConfidence::Low,
        evidence: setting_evidence("opt-level"@, opt_level, "is not set"@),
        tradeoff: "Size-focused optimization can reduce throughput or change latency-sensitive code paths."@,
        action: "Compare [profile.release] opt-level = \"z\" or \"s\" against the current release build before keeping it."@,
    }
}

/// Whether the `panic` setting is unset or other than `"abort"`.
pub open spec fn panic_unwinds(panic: Option<String>) -> bool {
    match panic {
        Some(p) => p@ != "abort"@,
        None => true,
    }
}

/// Whether the object has debug sections or the `debug` setting is on.
pub open spec fn debug_wanted(has_debug_sections: bool, debug: Option<ProfileValue>) -> bool {
    has_debug_sections || match debug {
        Some(v) => value_enabled(v),
        None => false,
    }
}

/// Whether a setting is unset or off.
pub open spec fn unset_or_disabled(value: Option<ProfileValue>) -> bool {
    match value {
        Some(v) => value_disabled(v),
        None => true,
    }
}

/// Whether the opt-level is unset or favors speed.
pub open spec fn unset_or_speed(value: Option<ProfileValue>) -> bool {
    match value {
        Some(v) => value_favors_speed(v),
        None => true,
    }
}

/// Whether `codegen-units` is unset or above 1.
pub open spec fn unset_or_many(units: Option<u64>) -> bool {
    match units {
        Some(n) => n > 1,
        None => true,
    }
}

/// The suggestions drawn from the release profile, in this order: debug
/// information (when the object has debug sections or `debug` is on), symbol
/// stripping (when `strip` is unset or off), LTO (when `lto` is unset or off),
/// codegen units (when unset or above 1), abort on panic (when `panic` is
/// unset or not `"abort"`), and a size-focused opt-level (when unset or
/// favoring speed).
pub open spec fn profile_suggestions(has_debug_sections: bool, profile: ReleaseProfileReport) -> Seq<SuggestionModel> {
    when(
        debug_wanted(has_debug_sections, profile.debug),
        debug_suggestion(has_debug_sections, profile.debug),
    ) + when(
        unset_or_disabled(profile.strip),
        strip_suggestion(profile.strip),
    ) + when(
        unset_or_disabled(profile.lto),
        lto_suggestion(profile.lto),
    ) + when(
        unset_or_many(profile.codegen_units),
        codegen_suggestion(profile.codegen_units),
    ) + when(
        panic_unwinds(profile.panic),
        panic_suggestion(profile.panic),
    ) + when(
        unset_or_speed(profile.opt_level),
        opt_level_suggestion(profile.opt_level),
    )
}

fn suggestion(title: &str, confidence: SuggestionConfidence, evidence: String, tradeoff: &str, action: &str) -> (res: SuggestionReport)
    ensures
        res@ == (SuggestionModel { title: title@, confidence, evidence: evidence@, tradeoff: tradeoff@, action: action@ }),
{
    SuggestionReport {
        title: String::from_str(title),
        confidence,
        evidence,
        tradeoff: String::from_str(tradeoff),
        action: String::from_str(action),
    }
}

fn push_debug_suggestion(suggestions: &mut Vec<SuggestionReport>, has_debug_sections: bool, debug: &Option<ProfileValue>)
    ensures
        suggestion_views(final(suggestions)@) == suggestion_views(old(suggestions)@) + when(
            debug_wanted(has_debug_sections, *debug),
            debug_suggestion(has_debug_sections, *debug),
        ),
{
    let ghost start = suggestion_views(suggestions@);
    let debug_enabled = match debug {
        Some(v) => profile_value_enabled(v),
        None => false,
    };
    if has_debug_sections || debug_enabled {
        let evidence = match debug {
            Some(v) => {
                let mut e = if has_debug_sections {
                    String::from_str("The inspected object has debug sections and [profile.release].debug is ")
                } else {
                    String::from_str("[profile.release].debug is ")
                };
                let text = v.display_string();
                e.append(text.as_str());
                e.append(".");
                e
            },
            None => String::from_str("The inspected object has debug sections."),
        };
        let s = suggestion(
            "Remove release debug information",
            SuggestionConfidence::High,
            evidence,
            "Disabling debug info reduces symbol detail in release artifacts; keep separate debuginfo if production debugging needs it.",
            "Set [profile.release] debug = false for size-focused release builds and compare the binary.",
        );
        suggestions.push(s);
    }
    assert(suggestion_views(suggestions@) =~= start + when(
        debug_wanted(has_debug_sections, *debug),
        debug_suggestion(has_debug_sections, *debug),
    ));
}

fn push_strip_suggestion(suggestions: &mut Vec<SuggestionReport>, strip: &Option<ProfileValue>)
    ensures
        suggestion_views(final(suggestions)@) == suggestion_views(old(suggestions)@) + when(
            unset_or_disabled(*strip),
            strip_suggestion(*strip),
        ),
{
    let ghost start = suggestion_views(suggestions@);
    let off = match strip {
        Some(v) => profile_value_disabled(v),
        None => true,
    };
    if off {
        let evidence = profile_setting_evidence("strip", strip.as_ref(), "is not set");
        let s = suggestion(
            "Strip symbols from release binaries",
            SuggestionConfidence::Medium,
            evidence,
            "Stripping symbols makes ad hoc debugging harder unless symbols are preserved separately.",
            "Set [profile.release] strip = \"symbols\" or strip = true, then inspect the resulting binary.",
        );
        suggestions.push(s);
    }
    assert(suggestion_views(suggestions@) =~= start + when(
        unset_or_disabled(*strip),
        strip_suggestion(*strip),
    ));
}

fn push_lto_suggestion(suggestions: &mut Vec<SuggestionReport>, lto: &Option<ProfileValue>)
    ensures
        suggestion_views(final(suggestions)@) == suggestion_views(old(suggestions)@) + when(
            unset_or_disabled(*lto),
            lto_suggestion(*lto),
        ),
{
    let ghost start = suggestion_views(suggestions@);
    let off = match lto {
        Some(v) => profile_value_disabled(v),
        None => true,
    };
    if off {
        let evidence = profile_setting_evidence("lto", lto.as_ref(), "is not set");
        let s = suggestion(
            "Compare release builds with LTO enabled",
            SuggestionConfidence::Medium,
            evidence,
            "LTO often increases release build time and can change optimization behavior, so measure the result.",
            "Try [profile.release] lto = \"thin\" first, then compare size and runtime behavior.",
        );
        suggestions.push(s);
    }
    assert(suggestion_views(suggestions@) =~= start + when(
        unset_or_disabled(*lto),
        lto_suggestion(*lto),
    ));
}

fn push_codegen_suggestion(suggestions: &mut Vec<SuggestionReport>, codegen_units: Option<u64>)
    ensures
        suggestion_views(final(suggestions)@) == suggestion_views(old(suggestions)@) + when(
            unset_or_many(codegen_units),
            codegen_suggestion(codegen_units),
        ),
{
    let ghost start = suggestion_views(suggestions@);
    let many = match codegen_units {
        Some(n) => n > 1,
        None => true,
    };
    if many {
        let evidence = match codegen_units {
            Some(n) => {
                let mut e = String::from_str("[profile.release].codegen-units is ");
                let digits = u64_to_decimal(n);
                e.append(digits.as_str());
                e.append(".");
                e
            },
            None => String::from_str("[profile.release].codegen-units is not set."),
        };
        let s = suggestion(
            "Compare codegen-units = 1",
            SuggestionConfidence::Medium,
            evidence,
            "A single codegen unit usually slows release builds because it gives LLVM less parallelism.",
            "Set [profile.release] codegen-units = 1 for a size-focused build and compare the output.",
        );
        suggestions.push(s);
    }
    assert(suggestion_views(suggestions@) =~= start + when(
        unset_or_many(codegen_units),
        codegen_suggestion(codegen_units),
    ));
}

fn push_panic_suggestion(suggestions: &mut Vec<SuggestionReport>, panic: &Option<String>)
    ensures
        suggestion_views(final(suggestions)@) == suggestion_views(old(suggestions)@) + when(
            panic_unwinds(*panic),
            panic_suggestion(*panic),
        ),
{
    let ghost start = suggestion_views(suggestions@);
    let unwinding = match panic {
        Some(p) => {
            let c = chars_of(p.as_str());
            !chars_are(&c, "abort")
        },
        None => true,
    };
    if unwinding {
        let evidence = match panic {
            Some(p) => {
                let mut e = String::from_str("[profile.release].panic is ");
                e.append(p.as_str());
                e.append(".");
                e
            },
            None => String::from_str("[profile.release].panic is not set."),
        };
        let s = suggestion(
            "Evaluate panic = \"abort\"",
            SuggestionConfidence::Medium,
            evidence,
            "Abort-on-panic removes unwinding but is not appropriate when code relies on catching panics across unwind boundaries.",
            "Set [profile.release] panic = \"abort\" only if aborting on panic fits the application.",
        );
        suggestions.push(s);
    }
    assert(suggestion_views(suggestions@) =~= start + when(panic_unwinds(*panic), panic_suggestion(*panic)));
}

fn push_opt_level_suggestion(suggestions: &mut Vec<SuggestionReport>, opt_level: &Option<ProfileValue>)
    ensures
        suggestion_views(final(suggestions)@) == suggestion_views(old(suggestions)@) + when(
            unset_or_speed(*opt_level),
            opt_level_suggestion(*opt_level),
        ),
{
    let ghost start = suggestion_views(suggestions@);
    let speed = match opt_level {
        Some(v) => opt_level_favors_speed(v),
        None => true,
    };
    if speed {
        let evidence = profile_setting_evidence("opt-level", opt_level.as_ref(), "is not set");
        let s = suggestion(
            "Compare a size-focused opt-level",
            SuggestionConfidence::Low,
            evidence,
            "Size-focused optimization can reduce throughput or change latency-sensitive code paths.",
            "Compare [profile.release] opt-level = \"z\" or \"s\" against the current release build before keeping it.",
        );
        suggestions.push(s);
    }
    assert(suggestion_views(suggestions@) =~= start + when(
        unset_or_speed(*opt_level),
        opt_level_suggestion(*opt_level),
    ));
}

/// Appends the suggestions drawn from the release profile.
#[verifier::rlimit(60)]
pub fn add_profile_suggestions(
    suggestions: &mut Vec<SuggestionReport>,
    object: Option<&ObjectReport>,
    profile: &ReleaseProfileReport,
)
    ensures
        suggestion_views(final(suggestions)@) == suggestion_views(old(suggestions)@) + profile_suggestions(
            object_has_debug(object),
            *profile,
        ),
{
    let ghost start = suggestion_views(suggestions@);
    let has_debug_sections = match object {
        Some(o) => o.has_debug_symbols,
        None => false,
    };
    let ghost w1 = when(debug_wanted(has_debug_sections, profile.debug), debug_suggestion(has_debug_sections, profile.debug));
    let ghost w2 = when(unset_or_disabled(profile.strip), strip_suggestion(profile.strip));
    let ghost w3 = when(unset_or_disabled(profile.lto), lto_suggestion(profile.lto));
    let ghost w4 = when(unset_or_many(profile.codegen_units), codegen_suggestion(profile.codegen_units));
    let ghost w5 = when(panic_unwinds(profile.panic), panic_suggestion(profile.panic));
    let ghost w6 = when(unset_or_speed(profile.opt_level), opt_level_suggestion(profile.opt_level));
    push_debug_suggestion(suggestions, has_debug_sections, &profile.debug);
    assert(suggestion_views(suggestions@) =~= start + w1);
    push_strip_suggestion(suggestions, &profile.strip);
    assert(suggestion_views(suggestions@) =~= start + (w1 + w2));
    push_lto_suggestion(suggestions, &profile.lto);
    assert(suggestion_views(suggestions@) =~= start + (w1 + w2 + w3));
    push_codegen_suggestion(suggestions, profile.codegen_units);
    assert(suggestion_views(suggestions@) =~= start + (w1 + w2 + w3 + w4));
    push_panic_suggestion(suggestions, &profile.panic);
    assert(suggestion_views(suggestions@) =~= start + (w1 + w2 + w3 + w4 + w5));
    push_opt_level_suggestion(suggestions, &profile.opt_level);
    assert(suggestion_views(suggestions@) =~= start + (w1 + w2 + w3 + w4 + w5 + w6));
    assert(has_debug_sections == object_has_debug(object));
}

/// Whether an optional object report has debug sections.
pub open spec fn object_has_debug(object: Option<&ObjectReport>) -> bool {
    match object {
        Some(o) => o.has_debug_symbols,
        None => false,
    }
}


// ------------------------------------------------------------- duplicates

/// The name of a lockfile package.
pub open spec fn package_name_fn() -> spec_fn(LockfilePackageReport) -> Seq<char> {
    |p: LockfilePackageReport| p.name@
}

/// The version of a lockfile package called `name`; none for other packages.
pub open spec fn version_of_fn(name: Seq<char>) -> spec_fn(LockfilePackageReport) -> Option<Seq<char>> {
    |p: LockfilePackageReport| if p.name@ == name { Some(p.version@) } else { None }
}

/// The distinct versions of the packages called `name`, in increasing order.
pub open spec fn versions_of(packages: Seq<LockfilePackageReport>, name: Seq<char>) -> Seq<Seq<char>> {
    sorted_names(packages.filter_map(version_of_fn(name)))
}

/// The line of a package name with several versions: `name (v1, v2, …)`.
pub open spec fn duplicate_line(name: Seq<char>, versions: Seq<Seq<char>>) -> Seq<char> {
    name + " ("@ + join(versions, ", "@) + ")"@
}

/// The line of `name` when the packages hold more than one version of it.
pub open spec fn duplicate_fn(packages: Seq<LockfilePackageReport>) -> spec_fn(Seq<char>) -> Option<Seq<char>> {
    |n: Seq<char>| if versions_of(packages, n).len() > 1 {
        Some(duplicate_line(n, versions_of(packages, n)))
    } else {
        None
    }
}

/// One line for each package name with more than one version, names in increasing order.
pub open spec fn duplicate_lines(packages: Seq<LockfilePackageReport>) -> Seq<Seq<char>> {
    sorted_names(packages.map_values(package_name_fn())).filter_map(duplicate_fn(packages))
}

/// The duplicate-versions suggestion, when the lockfile holds a package
/// name with more than one version.
pub open spec fn duplicate_suggestions(lockfile: Option<&LockfileReport>) -> Seq<SuggestionModel> {
    match lockfile {
        None => Seq::empty(),
        Some(l) => {
            let lines = duplicate_lines(l.packages@);
            when(
                lines.len() > 0,
                SuggestionModel {
                    title: "Review duplicate dependency versions"@,
                    confidence: SuggestionConfidence::High,
                    evidence: "Cargo.lock contains multiple versions for: "@ + join(lines, "; "@) + "."@,
                    tradeoff: "Aligning versions can require dependency upgrades and compatibility review."@,
                    action: "Use cargo tree -d, then update or constrain dependencies so Cargo can resolve fewer duplicate versions."@,
                },
            )
        },
    }
}

fn versions_named(packages: &Vec<LockfilePackageReport>, name: &String) -> (res: Vec<String>)
    ensures
        views(res@) == versions_of(packages@, name@),
{
    let mut versions: Vec<String> = Vec::new();
    let mut i: usize = 0;
    while i < packages.len()
        invariant
            0 <= i <= packages.len(),
            views(versions@) == sorted_names(packages@.take(i as int).filter_map(version_of_fn(name@))),
        decreases packages.len() - i,
    {
        let ghost prefix = packages@.take(i as int).filter_map(version_of_fn(name@));
        assert(packages@.take(i + 1).drop_last() =~= packages@.take(i as int));
        assert(packages@.take(i + 1).last() == packages@[i as int]);
        if crate::text::string_equal(&packages[i].name, name) {
            assert(packages@.take(i + 1).filter_map(version_of_fn(name@)) =~= prefix.push(packages@[i as int].version@));
            assert(prefix.push(packages@[i as int].version@).drop_last() =~= prefix);
            insert_name(&mut versions, &packages[i].version);
        } else {
            assert(packages@.take(i + 1).filter_map(version_of_fn(name@)) =~= prefix);
        }
        i = i + 1;
    }
    assert(packages@.take(packages.len() as int) =~= packages@);
    versions
}

/// Appends the duplicate-versions suggestion when the lockfile holds a
/// package name with more than one version.
pub fn add_duplicate_dependency_suggestions(suggestions: &mut Vec<SuggestionReport>, lockfile: Option<&LockfileReport>)
    ensures
        suggestion_views(final(suggestions)@) == suggestion_views(old(suggestions)@) + duplicate_suggestions(lockfile),
{
    let lockfile = match lockfile {
        None => {
            assert(suggestion_views(suggestions@) =~= suggestion_views(suggestions@) + Seq::<SuggestionModel>::empty());
            return;
        },
        Some(l) => l,
    };
    let packages = &lockfile.packages;
    let mut names: Vec<String> = Vec::new();
    let mut i: usize = 0;
    while i < packages.len()
        invariant
            0 <= i <= packages.len(),
            views(names@) == sorted_names(packages@.take(i as int).map_values(package_name_fn())),
        decreases packages.len() - i,
    {
        let ghost prefix = packages@.take(i as int).map_values(package_name_fn());
        assert(packages@.take(i + 1).map_values(package_name_fn()) =~= prefix.push(packages@[i as int].name@));
        assert(prefix.push(packages@[i as int].name@).drop_last() =~= prefix);
        insert_name(&mut names, &packages[i].name);
        i = i + 1;
    }
    assert(packages@.take(packages.len() as int) =~= packages@);
    let ghost sorted = views(names@);
    let mut lines: Vec<String> = Vec::new();
    let mut k: usize = 0;
    while k < names.len()
        invariant
            0 <= k <= names.len(),
            sorted == views(names@),
            views(lines@) == sorted.take(k as int).filter_map(duplicate_fn(packages@)),
        decreases names.len() - k,
    {
        let ghost prefix = sorted.take(k as int).filter_map(duplicate_fn(packages@));
        assert(sorted.take(k + 1).drop_last() =~= sorted.take(k as int));
        assert(sorted.take(k + 1).last() == names@[k as int]@);
        let versions = versions_named(packages, &names[k]);
        if versions.len() > 1 {
            let mut line = names[k].clone();
            line.append(" (");
            let joined = join_strings(&versions, ", ");
            line.append(joined.as_str());
            line.append(")");
            let ghost before = lines@;
            lines.push(line);
            assert(views(lines@) =~= views(before).push(line@));
        }
        k = k + 1;
    }
    assert(sorted.take(names.len() as int) =~= sorted);
    let ghost start = suggestion_views(suggestions@);
    if lines.len() == 0 {
        assert(suggestion_views(suggestions@) =~= start + duplicate_suggestions(Some(lockfile)));
        return;
    }
    let mut evidence = String::from_str("Cargo.lock contains multiple versions for: ");
    let joined = join_strings(&lines, "; ");
    evidence.append(joined.as_str());
    evidence.append(".");
    let s = suggestion(
        "Review duplicate dependency versions",
        SuggestionConfidence::High,
        evidence,
        "Aligning versions can require dependency upgrades and compatibility review.",
        "Use cargo tree -d, then update or constrain dependencies so Cargo can resolve fewer duplicate versions.",
    );
    suggestions.push(s);
    assert(suggestion_views(suggestions@) =~= start + duplicate_suggestions(Some(lockfile)));
}

// ------------------------------------------------------------- default features

/// The name of a dependency with default features on; none otherwise.
pub open spec fn default_name_fn() -> spec_fn(DependencyModel) -> Option<Seq<char>> {
    |d: DependencyModel| if d.default_features { Some(d.name) } else { None }
}

/// The default-features suggestion, when some direct dependency keeps its default features.
pub open spec fn default_feature_suggestions(dependencies: Seq<DependencyModel>) -> Seq<SuggestionModel> {
    let names = dependencies.filter_map(default_name_fn());
    when(
        names.len() > 0,
        SuggestionModel {
            title: "Audit direct dependency default features"@,
            confidence: SuggestionConfidence::Low,
            evidence: "Direct dependencies with default features enabled or unspecified: "@ + join(names, ", "@) + "."@,
            tradeoff: "Disabling default features can remove APIs, protocol support, or platform behavior that the application needs."@,
            action: "For dependencies whose defaults are unnecessary, set default-features = false and list the needed features explicitly."@,
        },
    )
}

/// Appends the default-features suggestion when some direct dependency keeps its default features.
pub fn add_default_feature_suggestions(suggestions: &mut Vec<SuggestionReport>, dependencies: &Vec<ManifestDependencyReport>)
    ensures
        suggestion_views(final(suggestions)@) == suggestion_views(old(suggestions)@) + default_feature_suggestions(
            dependency_views(dependencies@),
        ),
{
    let ghost deps = dependency_views(dependencies@);
    let mut names: Vec<String> = Vec::new();
    let mut i: usize = 0;
    while i < dependencies.len()
        invariant
            0 <= i <= dependencies.len(),
            deps == dependency_views(dependencies@),
            views(names@) == deps.take(i as int).filter_map(default_name_fn()),
        decreases dependencies.len() - i,
    {
        assert(deps.take(i + 1).drop_last() =~= deps.take(i as int));
        assert(deps.take(i + 1).last() == dependencies@[i as int]@);
        if dependencies[i].default_features {
            let ghost before = names@;
            names.push(dependencies[i].name.clone());
            assert(views(names@) =~= views(before).push(dependencies@[i as int].name@));
        }
        i = i + 1;
    }
    assert(deps.take(dependencies.len() as int) =~= deps);
    let ghost start = suggestion_views(suggestions@);
    if names.len() == 0 {
        assert(suggestion_views(suggestions@) =~= start + default_feature_suggestions(deps));
        return;
    }
    let mut evidence = String::from_str("Direct dependencies with default features enabled or unspecified: ");
    let joined = join_strings(&names, ", ");
    evidence.append(joined.as_str());
    evidence.append(".");
    let s = suggestion(
        "Audit direct dependency default features",
        SuggestionConfidence::Low,
        evidence,
        "Disabling default features can remove APIs, protocol support, or platform behavior that the application needs.",
        "For dependencies whose defaults are unnecessary, set default-features = false and list the needed features explicitly.",
    );
    suggestions.push(s);
    assert(suggestion_views(suggestions@) =~= start + default_feature_suggestions(deps));
}

// ------------------------------------------------------------- all suggestions

/// Higher confidence first.
pub open spec fn confidence_order() -> spec_fn(SuggestionModel, SuggestionModel) -> bool {
    |a: SuggestionModel, b: SuggestionModel| confidence_rank(a.confidence) < confidence_rank(b.confidence)
}

/// The suggestions for a binary with Cargo context: those of the release
/// profile, then of the lockfile, then of the direct dependencies, stably
/// sorted from high to low confidence. Without Cargo context there is none.
pub open spec fn suggestions_for(object: Option<&ObjectReport>, cargo: Option<&CargoReport>) -> Seq<SuggestionModel> {
    match cargo {
        None => Seq::empty(),
        Some(c) => sort_by(
            profile_suggestions(object_has_debug(object), c.release_profile) + duplicate_suggestions(
                match c.lockfile {
                    Some(l) => Some(&l),
                    None => None,
                },
            ) + default_feature_suggestions(dependency_views(c.direct_dependencies@)),
            confidence_order(),
        ),
    }
}

fn insert_suggestion(sorted: &mut Vec<SuggestionReport>, x: SuggestionReport)
    ensures
        suggestion_views(final(sorted)@) == insert_by(suggestion_views(old(sorted)@), x@, confidence_order()),
{
    let ghost s = suggestion_views(sorted@);
    let mut pos: usize = 0;
    while pos < sorted.len() && !(x.confidence.rank() < sorted[pos].confidence.rank())
        invariant
            0 <= pos <= sorted.len(),
            s == suggestion_views(sorted@),
            forall|i: int| 0 <= i < pos ==> !confidence_order()(x@, #[trigger] s[i]),
        decreases sorted.len() - pos,
    {
        pos = pos + 1;
    }
    proof {
        lemma_insert_by_position(s, x@, confidence_order(), pos as int);
    }
    let ghost xv = x@;
    sorted.insert(pos, x);
    assert(suggestion_views(sorted@) =~= s.insert(pos as int, xv));
}

/// The suggestions for a binary: none without Cargo context; otherwise those
/// of the release profile, the lockfile and the direct dependencies, from
/// high to low confidence.
pub fn build_suggestions(object: Option<&ObjectReport>, cargo: Option<&CargoReport>) -> (res: Vec<SuggestionReport>)
    ensures
        suggestion_views(res@) == suggestions_for(object, cargo),
{
    let cargo = match cargo {
        None => {
            let empty: Vec<SuggestionReport> = Vec::new();
            assert(suggestion_views(empty@) =~= Seq::<SuggestionModel>::empty());
            return empty;
        },
        Some(c) => c,
    };
    let mut suggestions: Vec<SuggestionReport> = Vec::new();
    assert(suggestion_views(suggestions@) =~= Seq::<SuggestionModel>::empty());
    add_profile_suggestions(&mut suggestions, object, &cargo.release_profile);
    add_duplicate_dependency_suggestions(&mut suggestions, cargo.lockfile.as_ref());
    add_default_feature_suggestions(&mut suggestions, &cargo.direct_dependencies);
    let ghost all = suggestion_views(suggestions@);
    assert(all =~= profile_suggestions(object_has_debug(object), cargo.release_profile) + duplicate_suggestions(
        match cargo.lockfile {
            Some(l) => Some(&l),
            None => None,
        },
    ) + default_feature_suggestions(dependency_views(cargo.direct_dependencies@)));
    let mut sorted: Vec<SuggestionReport> = Vec::new();
    let ghost empty_sorted = suggestion_views(sorted@);
    assert(empty_sorted =~= sort_by(all.take(0), confidence_order()));
    let n = suggestions.len();
    let mut taken: usize = 0;
    while suggestions.len() > 0
        invariant
            taken + suggestions.len() == n,
            n == all.len(),
            suggestion_views(suggestions@) == all.skip(taken as int),
            suggestion_views(sorted@) == sort_by(all.take(taken as int), confidence_order()),
        decreases suggestions.len(),
    {
        let ghost before = suggestions@;
        let x = suggestions.remove(0);
        assert(suggestion_views(before)[0] == x@);
        assert(all.skip(taken as int)[0] == x@);
        assert forall|i: int| 0 <= i < suggestions@.len() implies #[trigger] suggestion_views(suggestions@)[i] == all.skip(taken + 1)[i] by {
            assert(suggestions@[i] == before[i + 1]);
            assert(suggestion_views(before)[i + 1] == all.skip(taken as int)[i + 1]);
        }
        assert(all.take(taken + 1).drop_last() =~= all.take(taken as int));
        assert(all.take(taken + 1).last() == x@);
        assert(suggestion_views(suggestions@) =~= all.skip(taken + 1));
        insert_suggestion(&mut sorted, x);
        taken = taken + 1;
    }
    assert(all.take(n as int) =~= all);
    sorted
}


/// Suggestions come from high to low confidence, and sorting them loses or
/// adds none.
pub proof fn law_suggestions_ranked(object: Option<&ObjectReport>, cargo: CargoReport)
    ensures
        ({
            let s = suggestions_for(object, Some(&cargo));
            forall|i: int, j: int|
                0 <= i < j < s.len() ==> confidence_rank(#[trigger] s[i].confidence) <= confidence_rank(
                    #[trigger] s[j].confidence,
                )
        }),
        suggestions_for(object, Some(&cargo)).to_multiset() == (profile_suggestions(
            object_has_debug(object),
            cargo.release_profile,
        ) + duplicate_suggestions(
            match cargo.lockfile {
                Some(l) => Some(&l),
                None => None,
            },
        ) + default_feature_suggestions(dependency_views(cargo.direct_dependencies@))).to_multiset(),
{
    let all = profile_suggestions(object_has_debug(object), cargo.release_profile) + duplicate_suggestions(
        match cargo.lockfile {
            Some(l) => Some(&l),
            None => None,
        },
    ) + default_feature_suggestions(dependency_views(cargo.direct_dependencies@));
    crate::sorting::lemma_sort_by(all, confidence_order());
    let s = suggestions_for(object, Some(&cargo));
    assert forall|i: int, j: int| 0 <= i < j < s.len() implies confidence_rank(#[trigger] s[i].confidence) <= confidence_rank(
        #[trigger] s[j].confidence,
    ) by {
        assert(!confidence_order()(s[j], s[i]));
    }
}

/// Without Cargo context there are no suggestions.
pub proof fn law_no_cargo_no_suggestions(object: Option<&ObjectReport>)
    ensures
        suggestions_for(object, None) == Seq::<SuggestionModel>::empty(),
{
}

} // verus!
