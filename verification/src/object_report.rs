//! What an object file holds, as the size report sees it: its format,
//! architecture, byte order, entry point, and its non-empty sections
//! ordered from largest to smallest.

use object::{Object, ObjectSection};
use vstd::prelude::*;
use crate::sorting::{insert_by, is_strict_order, lemma_insert_by_position, lemma_sort_by, sort_by, sorted_by};
use crate::text::{chars_of, chars_are, chars_start_with, lex_lt, string_less};

verus! {

/// A section as the object file describes it.
pub struct RawSection {
    pub name: Option<String>,
    pub address: u64,
    pub size: u64,
}

/// An object file as the object reader describes it: the names of its
/// format, architecture and byte order, its entry address and its sections.
pub struct RawObject {
    pub format: String,
    pub architecture: String,
    pub endianness: String,
    pub entry: u64,
    pub sections: Vec<RawSection>,
}

/// The mathematical value of a `RawSection`.
pub struct RawSectionModel {
    pub name: Option<Seq<char>>,
    pub address: u64,
    pub size: u64,
}

/// The mathematical value of a `RawObject`.
pub struct RawObjectModel {
    pub format: Seq<char>,
    pub architecture: Seq<char>,
    pub endianness: Seq<char>,
    pub entry: u64,
    pub sections: Seq<RawSectionModel>,
}

impl View for RawSection {
    type V = RawSectionModel;

    open spec fn view(&self) -> RawSectionModel {
        RawSectionModel {
            name: match self.name {
                Some(n) => Some(n@),
                None => None,
            },
            address: self.address,
            size: self.size,
        }
    }
}

impl View for RawObject {
    type V = RawObjectModel;

    open spec fn view(&self) -> RawObjectModel {
        RawObjectModel {
            format: self.format@,
            architecture: self.architecture@,
            endianness: self.endianness@,
            entry: self.entry,
            sections: self.sections@.map_values(|s: RawSection| s@),
        }
    }
}

/// The view of an optional object description.
pub open spec fn raw_object_view(o: Option<RawObject>) -> Option<RawObjectModel> {
    match o {
        Some(r) => Some(r@),
        None => None,
    }
}

/// What the object reader makes of the bytes of a file: `None` when they are
/// not an object file it recognizes.
pub uninterp spec fn object_file(bytes: Seq<u8>) -> Option<RawObjectModel>;

/// Reads `bytes` with `object::File::parse`. When that fails the result is
/// `None`; otherwise it carries the `Debug` names of `File::format`,
/// `Object::architecture` and `Object::endianness`, the value of
/// `Object::entry`, and, for each item of `Object::sections` in order, the
/// section's `ObjectSection::name` (`None` where reading it fails),
/// `ObjectSection::address` and `ObjectSection::size`. The contract claims
/// only that this description is a function of the bytes, named `object_file`.
#[verifier::external_body]
fn parse_object(bytes: &[u8]) -> (res: Option<RawObject>)
    ensures
        raw_object_view(res) == object_file(bytes@),
{
    let file = object::File::parse(bytes).ok()?;
    let mut sections = Vec::new();
    for section in file.sections() {
        let name = match section.name() {
            Ok(name) => Some(name.to_string()),
            Err(_) => None,
        };
        sections.push(RawSection { name, address: section.address(), size: section.size() });
    }
    let format = format!("{:?}", file.format());
    let architecture = format!("{:?}", file.architecture());
    let endianness = format!("{:?}", file.endianness());
    Some(RawObject { format, architecture, endianness, entry: file.entry(), sections })
}

/// A non-empty section in a report.
pub struct SectionReport {
    pub name: String,
    pub address: u64,
    pub size_bytes: u64,
}

/// The mathematical value of a `SectionReport`.
pub struct SectionModel {
    pub name: Seq<char>,
    pub address: u64,
    pub size_bytes: u64,
}

impl View for SectionReport {
    type V = SectionModel;

    open spec fn view(&self) -> SectionModel {
        SectionModel { name: self.name@, address: self.address, size_bytes: self.size_bytes }
    }
}

/// The views of a sequence of sections.
pub open spec fn section_views(s: Seq<SectionReport>) -> Seq<SectionModel> {
    s.map_values(|x: SectionReport| x@)
}

/// The name shown for a section: its own, or `<unnamed>`.
pub open spec fn shown_name(name: Option<Seq<char>>) -> Seq<char> {
    match name {
        Some(n) => n,
        None => "<unnamed>"@,
    }
}

/// The report entry of a raw section, when it is not empty.
pub open spec fn kept_section(s: RawSectionModel) -> Option<SectionModel> {
    if s.size == 0 {
        None
    } else {
        Some(SectionModel { name: shown_name(s.name), address: s.address, size_bytes: s.size })
    }
}

/// `kept_section` as a function value.
pub open spec fn keep_section() -> spec_fn(RawSectionModel) -> Option<SectionModel> {
    |s: RawSectionModel| kept_section(s)
}

/// Larger sections first; among equal sizes, names in increasing order.
pub open spec fn section_order() -> spec_fn(SectionModel, SectionModel) -> bool {
    |a: SectionModel, b: SectionModel|
        a.size_bytes > b.size_bytes || (a.size_bytes == b.size_bytes && lex_lt(a.name, b.name))
}

/// The sections of a report on `raw`: the non-empty ones, stably sorted by `section_order`.
pub open spec fn report_sections(raw: Seq<RawSectionModel>) -> Seq<SectionModel> {
    sort_by(raw.filter_map(keep_section()), section_order())
}

/// Whether a section name marks debug information: `.debug_…`, `__debug_…` or `.zdebug`.
pub open spec fn is_debug_name(name: Seq<char>) -> bool {
    ".debug_"@.is_prefix_of(name) || "__debug_"@.is_prefix_of(name) || name == ".zdebug"@
}

/// Whether some section carries debug information.
pub open spec fn has_debug_name(sections: Seq<SectionModel>) -> bool {
    exists|i: int| 0 <= i < sections.len() && is_debug_name(#[trigger] sections[i].name)
}

/// Whether some section's name marks debug information.
pub fn has_debug_sections(sections: &Vec<SectionReport>) -> (res: bool)
    ensures
        res == has_debug_name(section_views(sections@)),
{
    let mut i: usize = 0;
    while i < sections.len()
        invariant
            0 <= i <= sections.len(),
            forall|j: int| 0 <= j < i ==> !is_debug_name(#[trigger] section_views(sections@)[j].name),
        decreases sections.len() - i,
    {
        let name = chars_of(sections[i].name.as_str());
        assert(section_views(sections@)[i as int].name == name@);
        if chars_start_with(&name, ".debug_") || chars_start_with(&name, "__debug_") || chars_are(
            &name,
            ".zdebug",
        ) {
            return true;
        }
        i = i + 1;
    }
    false
}

/// A recognized object file in a report.
pub struct ObjectReport {
    pub format: String,
    pub architecture: String,
    pub endianness: String,
    pub entry: u64,
    pub has_debug_symbols: bool,
    pub total_sections: usize,
    pub sections_omitted: usize,
    pub sections: Vec<SectionReport>,
}

/// Whether section `a` comes before section `b` in `section_order`.
fn section_before(a: &SectionReport, b: &SectionReport) -> (res: bool)
    ensures
        res == section_order()(a@, b@),
{
    if a.size_bytes != b.size_bytes {
        a.size_bytes > b.size_bytes
    } else {
        string_less(&a.name, &b.name)
    }
}

/// Places `x` into `sorted` as `insert_by` with `section_order` does.
fn insert_section(sorted: &mut Vec<SectionReport>, x: SectionReport)
    ensures
        section_views(final(sorted)@) == insert_by(section_views(old(sorted)@), x@, section_order()),
{
    let ghost s = section_views(sorted@);
    let mut pos: usize = 0;
    while pos < sorted.len() && !section_before(&x, &sorted[pos])
        invariant
            0 <= pos <= sorted.len(),
            s == section_views(sorted@),
            forall|i: int| 0 <= i < pos ==> !section_order()(x@, #[trigger] s[i]),
        decreases sorted.len() - pos,
    {
        pos = pos + 1;
    }
    proof {
        lemma_insert_by_position(s, x@, section_order(), pos as int);
    }
    let ghost xv = x@;
    sorted.insert(pos, x);
    assert(section_views(sorted@) =~= s.insert(pos as int, xv));
}

/// The report on an object file: its names and entry address, its non-empty
/// sections from largest to smallest (ties by name, then in file order), and
/// whether any of them carries debug information.
pub fn read_object_report(raw: RawObject) -> (res: ObjectReport)
    ensures
        res.format@ == raw.format@,
        res.architecture@ == raw.architecture@,
        res.endianness@ == raw.endianness@,
        res.entry == raw.entry,
        section_views(res.sections@) == report_sections(raw@.sections),
        res.has_debug_symbols == has_debug_name(section_views(res.sections@)),
        res.total_sections == res.sections.len(),
        res.sections_omitted == 0,
{
    let ghost all = raw@.sections;
    let mut sections: Vec<SectionReport> = Vec::new();
    let mut i: usize = 0;
    while i < raw.sections.len()
        invariant
            0 <= i <= raw.sections.len(),
            all == raw@.sections,
            all == raw.sections@.map_values(|s: RawSection| s@),
            section_views(sections@) == sort_by(all.take(i as int).filter_map(keep_section()), section_order()),
        decreases raw.sections.len() - i,
    {
        let raw_section = &raw.sections[i];
        assert(all[i as int] == raw_section@);
        assert(all.take(i + 1).drop_last() =~= all.take(i as int));
        assert(all.take(i + 1).last() == all[i as int]);
        if raw_section.size != 0 {
            let name = match &raw_section.name {
                Some(n) => n.clone(),
                None => String::from_str("<unnamed>"),
            };
            let section = SectionReport { name, address: raw_section.address, size_bytes: raw_section.size };
            assert(keep_section()(all[i as int]) == Some(section@));
            assert(all.take(i + 1).filter_map(keep_section()) =~= all.take(i as int).filter_map(keep_section()).push(section@));
            assert(all.take(i + 1).filter_map(keep_section()).drop_last() =~= all.take(i as int).filter_map(keep_section()));
            insert_section(&mut sections, section);
        } else {
            assert(keep_section()(all[i as int]) is None);
            assert(all.take(i + 1).filter_map(keep_section()) =~= all.take(i as int).filter_map(keep_section()));
        }
        i = i + 1;
    }
    assert(all.take(raw.sections.len() as int) =~= all);
    let has_debug_symbols = has_debug_sections(&sections);
    let total_sections = sections.len();
    ObjectReport {
        format: raw.format,
        architecture: raw.architecture,
        endianness: raw.endianness,
        entry: raw.entry,
        has_debug_symbols,
        total_sections,
        sections_omitted: 0,
        sections,
    }
}

/// What a file is, as far as the report goes: its path, its size, and what
/// it holds when it is an object file.
pub struct BinaryReport {
    pub path: String,
    pub file_size_bytes: u64,
    pub object: Option<ObjectReport>,
}

/// The report on the file at `path` whose size is `file_size_bytes` and whose
/// contents are `bytes`: the object report when the object reader recognizes
/// the bytes, none otherwise.
pub fn read_binary_report(path: String, file_size_bytes: u64, bytes: &[u8]) -> (res: BinaryReport)
    ensures
        res.path@ == path@,
        res.file_size_bytes == file_size_bytes,
        res.object is Some <==> object_file(bytes@) is Some,
        res.object matches Some(o) ==> {
            let raw = object_file(bytes@)->0;
            &&& o.format@ == raw.format
            &&& o.architecture@ == raw.architecture
            &&& o.endianness@ == raw.endianness
            &&& o.entry == raw.entry
            &&& section_views(o.sections@) == report_sections(raw.sections)
            &&& o.has_debug_symbols == has_debug_name(section_views(o.sections@))
            &&& o.total_sections == o.sections.len()
            &&& o.sections_omitted == 0
        },
{
    let object = match parse_object(bytes) {
        Some(raw) => Some(read_object_report(raw)),
        None => None,
    };
    BinaryReport { path, file_size_bytes, object }
}


/// `section_order` is a strict order.
pub proof fn lemma_section_order_strict()
    ensures
        is_strict_order(section_order()),
{
    assert forall|a: SectionModel, b: SectionModel| #[trigger] section_order()(a, b) implies !section_order()(b, a) by {
        crate::text::lemma_lex_lt_total(a.name, b.name);
    }
    assert forall|a: SectionModel, b: SectionModel, c: SectionModel|
        #[trigger] section_order()(a, b) && #[trigger] section_order()(b, c) implies section_order()(a, c) by {
        if a.size_bytes == b.size_bytes && b.size_bytes == c.size_bytes {
            crate::text::lemma_lex_lt_transitive(a.name, b.name, c.name);
        }
    }
}

/// The sections of a report are the non-empty sections of the file, each
/// once, and none is larger than one before it; among equal sizes names
/// never decrease.
pub proof fn law_report_sections_sorted(raw: Seq<RawSectionModel>)
    ensures
        report_sections(raw).to_multiset() == raw.filter_map(keep_section()).to_multiset(),
        forall|i: int, j: int|
            0 <= i < j < report_sections(raw).len() ==> {
                let a = #[trigger] report_sections(raw)[i];
                let b = #[trigger] report_sections(raw)[j];
                a.size_bytes >= b.size_bytes && (a.size_bytes == b.size_bytes ==> !lex_lt(b.name, a.name))
            },
        forall|i: int| 0 <= i < report_sections(raw).len() ==> #[trigger] report_sections(raw)[i].size_bytes > 0,
{
    lemma_section_order_strict();
    let kept = raw.filter_map(keep_section());
    lemma_sort_by(kept, section_order());
    let r = report_sections(raw);
    assert forall|i: int, j: int| 0 <= i < j < r.len() implies {
        let a = #[trigger] r[i];
        let b = #[trigger] r[j];
        a.size_bytes >= b.size_bytes && (a.size_bytes == b.size_bytes ==> !lex_lt(b.name, a.name))
    } by {
        assert(!section_order()(r[j], r[i]));
    }
    assert forall|i: int| 0 <= i < r.len() implies #[trigger] r[i].size_bytes > 0 by {
        lemma_kept_nonempty(raw);
        assert(r.to_multiset().count(r[i]) > 0) by {
            broadcast use vstd::seq_lib::group_to_multiset_ensures;
            assert(r.contains(r[i]));
        }
        assert(kept.to_multiset().count(r[i]) > 0);
        broadcast use vstd::seq_lib::group_to_multiset_ensures;
        let k = choose|k: int| 0 <= k < kept.len() && kept[k] == r[i];
        assert(kept[k].size_bytes > 0);
    }
}

proof fn lemma_kept_nonempty(raw: Seq<RawSectionModel>)
    ensures
        forall|k: int| 0 <= k < raw.filter_map(keep_section()).len() ==> #[trigger] raw.filter_map(keep_section())[k].size_bytes > 0,
    decreases raw.len(),
{
    if raw.len() > 0 {
        lemma_kept_nonempty(raw.drop_last());
        let init = raw.drop_last().filter_map(keep_section());
        let all = raw.filter_map(keep_section());
        assert forall|k: int| 0 <= k < all.len() implies #[trigger] all[k].size_bytes > 0 by {
            if k < init.len() {
                assert(all[k] == init[k]);
            }
        }
    }
}


/// A list of sections carries debug information exactly when some section
/// in it, at any position, is named `.debug_…`, `__debug_…` or `.zdebug`;
/// so the answer does not depend on the order of the sections.
pub proof fn law_debug_flag(sections: Seq<SectionModel>, other: Seq<SectionModel>)
    ensures
        has_debug_name(sections) <==> exists|i: int|
            0 <= i < sections.len() && (".debug_"@.is_prefix_of(#[trigger] sections[i].name)
                || "__debug_"@.is_prefix_of(sections[i].name) || sections[i].name == ".zdebug"@),
        sections.to_multiset() == other.to_multiset() ==> has_debug_name(sections) == has_debug_name(other),
{
    broadcast use vstd::seq_lib::group_to_multiset_ensures;
    if sections.to_multiset() == other.to_multiset() {
        if has_debug_name(sections) {
            let i = choose|i: int| 0 <= i < sections.len() && is_debug_name(#[trigger] sections[i].name);
            assert(sections.contains(sections[i]));
            assert(other.to_multiset().count(sections[i]) > 0);
            let j = choose|j: int| 0 <= j < other.len() && other[j] == sections[i];
            assert(is_debug_name(other[j].name));
        }
        if has_debug_name(other) {
            let j = choose|j: int| 0 <= j < other.len() && is_debug_name(#[trigger] other[j].name);
            assert(other.contains(other[j]));
            assert(sections.to_multiset().count(other[j]) > 0);
            let i = choose|i: int| 0 <= i < sections.len() && sections[i] == other[j];
            assert(is_debug_name(sections[i].name));
        }
    }
}

} // verus!
