//! Comparing two files: the size delta of the files and, section name by
//! section name, the change in total section size.

use vstd::prelude::*;
use crate::limit::limit_outcome;
use crate::object_report::{BinaryReport, ObjectReport, SectionModel, SectionReport, section_views};
use crate::sorting::{
    add_name, insert_by, is_strict_order, lemma_insert_by_position, name_order, sort_by, sorted_names,
};
use crate::text::{lex_lt, string_equal, string_less, views};

verus! {

/// The change from `old` to `new` as a signed count, clamped to the range of
/// `i64` in both directions.
pub open spec fn delta_value(old: u64, new: u64) -> i64 {
    if new >= old {
        if new - old <= i64::MAX { (new - old) as i64 } else { i64::MAX }
    } else {
        if old - new <= i64::MAX { -((old - new) as int) as i64 } else { -(i64::MAX as int) as i64 }
    }
}

/// The signed change from `old` to `new` bytes, clamped to `i64`.
pub fn byte_delta(old: u64, new: u64) -> (res: i64)
    ensures
        res == delta_value(old, new),
        -i64::MAX <= res <= i64::MAX,
        (new - old <= i64::MAX && old - new <= i64::MAX) ==> res == new - old,
{
    if new >= old {
        let d = new - old;
        if d > (i64::MAX as u64) { i64::MAX } else { d as i64 }
    } else {
        let d = old - new;
        if d > (i64::MAX as u64) { -i64::MAX } else { -(d as i64) }
    }
}

/// Swapping the two sizes negates the delta.
pub proof fn law_byte_delta_antisymmetric(old: u64, new: u64)
    ensures
        delta_value(new, old) == -delta_value(old, new),
{
}

// ------------------------------------------------------------- totals by name

/// The sum of the sizes of the sections called `name`.
pub open spec fn size_sum(sections: Seq<SectionModel>, name: Seq<char>) -> nat
    decreases sections.len(),
{
    if sections.len() == 0 {
        0
    } else {
        size_sum(sections.drop_last(), name) + if sections.last().name == name {
            sections.last().size_bytes as nat
        } else {
            0nat
        }
    }
}

/// The total size of the sections called `name`, saturating at `u64::MAX`;
/// zero when there is none.
pub open spec fn section_total(sections: Seq<SectionModel>, name: Seq<char>) -> u64 {
    if size_sum(sections, name) <= u64::MAX {
        size_sum(sections, name) as u64
    } else {
        u64::MAX
    }
}

/// The names of the sections, in order, with repeats.
pub open spec fn section_names(sections: Seq<SectionModel>) -> Seq<Seq<char>> {
    sections.map_values(|s: SectionModel| s.name)
}

/// Each distinct section name, in increasing order, with its total size.
pub open spec fn size_totals(sections: Seq<SectionModel>) -> Seq<(Seq<char>, u64)> {
    sorted_names(section_names(sections)).map_values(|n: Seq<char>| (n, section_total(sections, n)))
}

/// The sections of an optional object report; none without one.
pub open spec fn object_sections(object: Option<&ObjectReport>) -> Seq<SectionModel> {
    match object {
        Some(o) => section_views(o.sections@),
        None => Seq::empty(),
    }
}

/// The view of a vector of named totals.
pub open spec fn totals_view(v: Seq<(String, u64)>) -> Seq<(Seq<char>, u64)> {
    v.map_values(|p: (String, u64)| (p.0@, p.1))
}

proof fn lemma_size_sum_absent(sections: Seq<SectionModel>, name: Seq<char>)
    requires
        !section_names(sections).contains(name),
    ensures
        size_sum(sections, name) == 0,
    decreases sections.len(),
{
    if sections.len() > 0 {
        let init = sections.drop_last();
        assert forall|k: int| 0 <= k < init.len() implies section_names(init)[k] != name by {
            assert(section_names(init)[k] == section_names(sections)[k]);
        }
        assert(section_names(sections)[sections.len() - 1] == sections.last().name);
        lemma_size_sum_absent(init, name);
    }
}

/// Each distinct section name with the total size of the sections of that
/// name, names in increasing order; empty without an object.
pub fn aggregate_section_sizes(object: Option<&ObjectReport>) -> (res: Vec<(String, u64)>)
    ensures
        totals_view(res@) == size_totals(object_sections(object)),
{
    let mut names: Vec<String> = Vec::new();
    let mut totals: Vec<u64> = Vec::new();
    let ghost all = object_sections(object);
    match object {
        None => {},
        Some(object) => {
            let sections = &object.sections;
            let mut i: usize = 0;
            while i < sections.len()
                invariant
                    0 <= i <= sections.len(),
                    all == section_views(sections@),
                    names.len() == totals.len(),
                    names@.map_values(|n: String| n@) == sorted_names(section_names(all.take(i as int))),
                    forall|k: int| 0 <= k < totals.len() ==> #[trigger] totals@[k] == section_total(all.take(i as int), names@[k]@),
                decreases sections.len() - i,
            {
                let section = &sections[i];
                let ghost prefix = all.take(i as int);
                let ghost next = all.take(i + 1);
                let ghost sorted = names@.map_values(|n: String| n@);
                assert(next.drop_last() =~= prefix);
                assert(next.last() == section@);
                assert(section_names(next) =~= section_names(prefix).push(section.name@));
                assert(section_names(next).drop_last() =~= section_names(prefix));
                assert forall|n: Seq<char>| n != section.name@ implies size_sum(next, n) == size_sum(prefix, n) by {}
                assert(size_sum(next, section.name@) == size_sum(prefix, section.name@) + section.size_bytes);
                // look for the name among those seen
                let mut k: usize = 0;
                while k < names.len() && !string_equal(&names[k], &section.name)
                    invariant
                        0 <= k <= names.len(),
                        sorted == names@.map_values(|n: String| n@),
                        forall|j: int| 0 <= j < k ==> sorted[j] != section.name@,
                    decreases names.len() - k,
                {
                    k = k + 1;
                }
                if k < names.len() {
                    assert(sorted[k as int] == section.name@);
                    assert(sorted.contains(section.name@));
                    let t = totals[k].saturating_add(section.size_bytes);
                    totals.set(k, t);
                    assert forall|j: int| 0 <= j < totals.len() implies #[trigger] totals@[j] == section_total(next, names@[j]@) by {
                        if j != k {
                            assert(sorted[j] != section.name@ || j == k) by {
                                crate::sorting::lemma_sorted_names(section_names(prefix));
                                if sorted[j] == section.name@ {
                                    crate::text::lemma_lex_lt_irreflexive(sorted[j]);
                                    if j < k {
                                        assert(name_order()(sorted[j], sorted[k as int]));
                                    } else {
                                        assert(name_order()(sorted[k as int], sorted[j]));
                                    }
                                }
                            }
                            assert(sorted[j] == names@[j]@);
                        }
                    }
                } else {
                    assert(!sorted.contains(section.name@));
                    proof {
                        crate::sorting::lemma_sorted_names(section_names(prefix));
                        assert(!section_names(prefix).to_set().contains(section.name@));
                        lemma_size_sum_absent(prefix, section.name@);
                    }
                    let mut pos: usize = 0;
                    while pos < names.len() && !string_less(&section.name, &names[pos])
                        invariant
                            0 <= pos <= names.len(),
                            sorted == names@.map_values(|n: String| n@),
                            forall|j: int| 0 <= j < pos ==> !name_order()(section.name@, #[trigger] sorted[j]),
                        decreases names.len() - pos,
                    {
                        pos = pos + 1;
                    }
                    proof {
                        lemma_insert_by_position(sorted, section.name@, name_order(), pos as int);
                    }
                    let ghost old_totals = totals@;
                    let ghost old_names = names@;
                    names.insert(pos, section.name.clone());
                    totals.insert(pos, section.size_bytes);
                    assert(names@.map_values(|n: String| n@) =~= sorted.insert(pos as int, section.name@));
                    assert forall|j: int| 0 <= j < totals.len() implies #[trigger] totals@[j] == section_total(next, names@[j]@) by {
                        if j < pos {
                            assert(totals@[j] == old_totals[j] && names@[j] == old_names[j]);
                            assert(sorted[j] == old_names[j]@);
                            assert(sorted[j] != section.name@);
                        } else if j > pos {
                            assert(totals@[j] == old_totals[j - 1] && names@[j] == old_names[j - 1]);
                            assert(sorted[j - 1] == old_names[j - 1]@);
                            assert(sorted[j - 1] != section.name@);
                        }
                    }
                }
                i = i + 1;
            }
            assert(all.take(sections.len() as int) =~= all);
        },
    }
    let mut res: Vec<(String, u64)> = Vec::new();
    let mut j: usize = 0;
    let ghost sorted = names@.map_values(|n: String| n@);
    assert(sorted == sorted_names(section_names(all))) by {
        if object.is_none() {
            assert(section_names(all) =~= Seq::<Seq<char>>::empty());
        }
    }
    while j < names.len()
        invariant
            0 <= j <= names.len(),
            names.len() == totals.len(),
            sorted == names@.map_values(|n: String| n@),
            sorted == sorted_names(section_names(all)),
            forall|k: int| 0 <= k < totals.len() ==> #[trigger] totals@[k] == section_total(all, names@[k]@),
            totals_view(res@) == size_totals(all).take(j as int),
        decreases names.len() - j,
    {
        let ghost before = res@;
        res.push((names[j].clone(), totals[j]));
        assert(sorted[j as int] == names@[j as int]@);
        assert(totals@[j as int] == section_total(all, names@[j as int]@));
        assert(totals_view(res@) =~= totals_view(before).push((sorted[j as int], totals@[j as int])));
        assert(totals_view(res@) =~= size_totals(all).take(j + 1));
        j = j + 1;
    }
    assert(size_totals(all).take(names.len() as int) =~= size_totals(all));
    res
}


/// Adds `name` to the increasing list `names` unless it is there, as `add_name` does.
pub fn insert_name(names: &mut Vec<String>, name: &String)
    ensures
        views(final(names)@) == add_name(views(old(names)@), name@),
{
    let ghost sorted = views(names@);
    let mut k: usize = 0;
    while k < names.len()
        invariant
            0 <= k <= names.len(),
            sorted == views(names@),
            forall|j: int| 0 <= j < k ==> sorted[j] != name@,
        decreases names.len() - k,
    {
        if string_equal(&names[k], name) {
            assert(sorted[k as int] == name@);
            assert(sorted.contains(name@));
            return;
        }
        k = k + 1;
    }
    assert(!sorted.contains(name@));
    let mut pos: usize = 0;
    while pos < names.len() && !string_less(name, &names[pos])
        invariant
            0 <= pos <= names.len(),
            sorted == views(names@),
            forall|j: int| 0 <= j < pos ==> !name_order()(name@, #[trigger] sorted[j]),
        decreases names.len() - pos,
    {
        pos = pos + 1;
    }
    proof {
        lemma_insert_by_position(sorted, name@, name_order(), pos as int);
    }
    names.insert(pos, name.clone());
    assert(views(names@) =~= sorted.insert(pos as int, name@));
}

/// The total recorded for `name` in `totals`, the totals of `sections`; zero when absent.
fn lookup_total(totals: &Vec<(String, u64)>, name: &String, Ghost(sections): Ghost<Seq<SectionModel>>) -> (res: u64)
    requires
        totals_view(totals@) == size_totals(sections),
    ensures
        res == section_total(sections, name@),
{
    let ghost sorted = sorted_names(section_names(sections));
    assert(totals_view(totals@).len() == sorted.len());
    let mut k: usize = 0;
    while k < totals.len()
        invariant
            0 <= k <= totals.len(),
            sorted == sorted_names(section_names(sections)),
            totals_view(totals@) == size_totals(sections),
            totals.len() == sorted.len(),
            forall|j: int| 0 <= j < k ==> sorted[j] != name@,
        decreases totals.len() - k,
    {
        assert(totals_view(totals@)[k as int] == (totals@[k as int].0@, totals@[k as int].1));
        assert(size_totals(sections)[k as int] == (sorted[k as int], section_total(sections, sorted[k as int])));
        if string_equal(&totals[k].0, name) {
            return totals[k].1;
        }
        k = k + 1;
    }
    proof {
        assert(!sorted.contains(name@));
        crate::sorting::lemma_sorted_names(section_names(sections));
        assert(!section_names(sections).to_set().contains(name@));
        lemma_size_sum_absent(sections, name@);
    }
    0
}

/// How a section changed between the two files.
#[derive(Clone, Copy, Debug, PartialEq, Eq)]
pub enum SectionDeltaStatus {
    Added,
    Removed,
    Changed,
}

impl SectionDeltaStatus {
    /// The lower-case name of the status.
    pub fn as_str(&self) -> (res: &'static str)
        ensures
            res@ == status_name(*self),
    {
        match self {
            SectionDeltaStatus::Added => "added",
            SectionDeltaStatus::Removed => "removed",
            SectionDeltaStatus::Changed => "changed",
        }
    }
}

/// The lower-case name of a status.
pub open spec fn status_name(s: SectionDeltaStatus) -> Seq<char> {
    match s {
        SectionDeltaStatus::Added => "added"@,
        SectionDeltaStatus::Removed => "removed"@,
        SectionDeltaStatus::Changed => "changed"@,
    }
}

/// The change of the sections of one name.
pub struct SectionDeltaReport {
    pub name: String,
    pub old_size_bytes: u64,
    pub new_size_bytes: u64,
    pub delta_bytes: i64,
    pub status: SectionDeltaStatus,
}

/// The mathematical value of a `SectionDeltaReport`.
pub struct DeltaModel {
    pub name: Seq<char>,
    pub old_size_bytes: u64,
    pub new_size_bytes: u64,
    pub delta_bytes: i64,
    pub status: SectionDeltaStatus,
}

impl View for SectionDeltaReport {
    type V = DeltaModel;

    open spec fn view(&self) -> DeltaModel {
        DeltaModel {
            name: self.name@,
            old_size_bytes: self.old_size_bytes,
            new_size_bytes: self.new_size_bytes,
            delta_bytes: self.delta_bytes,
            status: self.status,
        }
    }
}

/// The views of a sequence of deltas.
pub open spec fn delta_views(s: Seq<SectionDeltaReport>) -> Seq<DeltaModel> {
    s.map_values(|d: SectionDeltaReport| d@)
}

/// Added when absent before, removed when absent after, changed otherwise.
pub open spec fn delta_status(old: u64, new: u64) -> SectionDeltaStatus {
    if old == 0 {
        SectionDeltaStatus::Added
    } else if new == 0 {
        SectionDeltaStatus::Removed
    } else {
        SectionDeltaStatus::Changed
    }
}

/// The delta entry of a name whose total went from `old` to `new`; none when unchanged.
pub open spec fn delta_entry(name: Seq<char>, old: u64, new: u64) -> Option<DeltaModel> {
    if old == new {
        None
    } else {
        Some(
            DeltaModel {
                name,
                old_size_bytes: old,
                new_size_bytes: new,
                delta_bytes: delta_value(old, new),
                status: delta_status(old, new),
            },
        )
    }
}

/// The delta entry of each name between the sections `old` and `new`.
pub open spec fn delta_of(old: Seq<SectionModel>, new: Seq<SectionModel>) -> spec_fn(Seq<char>) -> Option<DeltaModel> {
    |n: Seq<char>| delta_entry(n, section_total(old, n), section_total(new, n))
}

/// The magnitude of a delta.
pub open spec fn magnitude(d: i64) -> int {
    if d < 0 { -d } else { d as int }
}

/// Larger changes first; among equal magnitudes, names in increasing order.
pub open spec fn delta_order() -> spec_fn(DeltaModel, DeltaModel) -> bool {
    |a: DeltaModel, b: DeltaModel|
        magnitude(a.delta_bytes) > magnitude(b.delta_bytes) || (magnitude(a.delta_bytes)
            == magnitude(b.delta_bytes) && lex_lt(a.name, b.name))
}

/// The deltas between the sections `old` and `new`: one for each section
/// name of either whose total size differs, taken in increasing name order
/// and then stably sorted by `delta_order`.
pub open spec fn section_deltas(old: Seq<SectionModel>, new: Seq<SectionModel>) -> Seq<DeltaModel> {
    sort_by(
        sorted_names(section_names(old) + section_names(new)).filter_map(delta_of(old, new)),
        delta_order(),
    )
}

/// The magnitude of `d`.
fn magnitude_of(d: i64) -> (res: u64)
    ensures
        res == magnitude(d),
{
    if d < 0 {
        (-(d as i128)) as u64
    } else {
        d as u64
    }
}

/// Whether delta `a` comes before delta `b` in `delta_order`.
fn delta_before(a: &SectionDeltaReport, b: &SectionDeltaReport) -> (res: bool)
    ensures
        res == delta_order()(a@, b@),
{
    let ma = magnitude_of(a.delta_bytes);
    let mb = magnitude_of(b.delta_bytes);
    if ma != mb {
        ma > mb
    } else {
        string_less(&a.name, &b.name)
    }
}

/// Places `x` into `sorted` as `insert_by` with `delta_order` does.
fn insert_delta(sorted: &mut Vec<SectionDeltaReport>, x: SectionDeltaReport)
    ensures
        delta_views(final(sorted)@) == insert_by(delta_views(old(sorted)@), x@, delta_order()),
{
    let ghost s = delta_views(sorted@);
    let mut pos: usize = 0;
    while pos < sorted.len() && !delta_before(&x, &sorted[pos])
        invariant
            0 <= pos <= sorted.len(),
            s == delta_views(sorted@),
            forall|i: int| 0 <= i < pos ==> !delta_order()(x@, #[trigger] s[i]),
        decreases sorted.len() - pos,
    {
        pos = pos + 1;
    }
    proof {
        lemma_insert_by_position(s, x@, delta_order(), pos as int);
    }
    let ghost xv = x@;
    sorted.insert(pos, x);
    assert(delta_views(sorted@) =~= s.insert(pos as int, xv));
}

/// The section deltas between two optional object reports: for every section
/// name of either, the change of its total size when it changed, largest
/// changes first, then by name.
pub fn diff_sections(old_object: Option<&ObjectReport>, new_object: Option<&ObjectReport>) -> (res: Vec<SectionDeltaReport>)
    ensures
        delta_views(res@) == section_deltas(object_sections(old_object), object_sections(new_object)),
{
    let ghost old = object_sections(old_object);
    let ghost new = object_sections(new_object);
    let old_totals = aggregate_section_sizes(old_object);
    let new_totals = aggregate_section_sizes(new_object);
    let mut names: Vec<String> = Vec::new();
    let empty: Vec<SectionReport> = Vec::new();
    let old_sections = match old_object { Some(o) => &o.sections, None => &empty };
    let new_sections = match new_object { Some(o) => &o.sections, None => &empty };
    assert(section_views(old_sections@) == old);
    assert(section_views(new_sections@) == new);
    let ghost all = section_names(old) + section_names(new);
    let mut i: usize = 0;
    assert(views(names@) =~= sorted_names(all.take(0)));
    while i < old_sections.len()
        invariant
            0 <= i <= old_sections.len(),
            section_views(old_sections@) == old,
            all == section_names(old) + section_names(new),
            views(names@) == sorted_names(all.take(i as int)),
        decreases old_sections.len() - i,
    {
        assert(all.take(i + 1).drop_last() =~= all.take(i as int));
        assert(all.take(i + 1).last() == old_sections@[i as int].name@);
        insert_name(&mut names, &old_sections[i].name);
        i = i + 1;
    }
    let mut j: usize = 0;
    while j < new_sections.len()
        invariant
            0 <= j <= new_sections.len(),
            old_sections.len() == section_names(old).len(),
            section_views(new_sections@) == new,
            all == section_names(old) + section_names(new),
            views(names@) == sorted_names(all.take(old_sections.len() + j)),
        decreases new_sections.len() - j,
    {
        let ghost n = old_sections.len() + j;
        assert(all.take(n + 1).drop_last() =~= all.take(n));
        assert(all.take(n + 1).last() == new_sections@[j as int].name@);
        insert_name(&mut names, &new_sections[j].name);
        j = j + 1;
    }
    assert(all.take(all.len() as int) =~= all);
    let ghost sorted = views(names@);
    let ghost entry = delta_of(old, new);
    let mut deltas: Vec<SectionDeltaReport> = Vec::new();
    let mut k: usize = 0;
    while k < names.len()
        invariant
            0 <= k <= names.len(),
            sorted == views(names@),
            totals_view(old_totals@) == size_totals(old),
            totals_view(new_totals@) == size_totals(new),
            delta_views(deltas@) == sort_by(sorted.take(k as int).filter_map(delta_of(old, new)), delta_order()),
        decreases names.len() - k,
    {
        let name = &names[k];
        assert(sorted.take(k + 1).drop_last() =~= sorted.take(k as int));
        assert(sorted.take(k + 1).last() == name@);
        let old_size = lookup_total(&old_totals, name, Ghost(old));
        let new_size = lookup_total(&new_totals, name, Ghost(new));
        if old_size != new_size {
            let status = if old_size == 0 {
                SectionDeltaStatus::Added
            } else if new_size == 0 {
                SectionDeltaStatus::Removed
            } else {
                SectionDeltaStatus::Changed
            };
            let delta = SectionDeltaReport {
                name: name.clone(),
                old_size_bytes: old_size,
                new_size_bytes: new_size,
                delta_bytes: byte_delta(old_size, new_size),
                status,
            };
            assert(delta_of(old, new)(name@) == Some(delta@));
            assert(sorted.take(k + 1).filter_map(delta_of(old, new)) =~= sorted.take(k as int).filter_map(delta_of(old, new)).push(delta@));
            assert(sorted.take(k + 1).filter_map(delta_of(old, new)).drop_last() =~= sorted.take(k as int).filter_map(delta_of(old, new)));
            insert_delta(&mut deltas, delta);
        } else {
            assert(delta_of(old, new)(name@) is None);
            assert(sorted.take(k + 1).filter_map(delta_of(old, new)) =~= sorted.take(k as int).filter_map(delta_of(old, new)));
        }
        k = k + 1;
    }
    assert(sorted.take(names.len() as int) =~= sorted);
    deltas
}


/// A delta seen from the other side: sizes exchanged, delta negated,
/// added and removed exchanged.
pub open spec fn swapped(d: DeltaModel) -> DeltaModel {
    DeltaModel {
        name: d.name,
        old_size_bytes: d.new_size_bytes,
        new_size_bytes: d.old_size_bytes,
        delta_bytes: if d.delta_bytes == i64::MIN { i64::MIN } else { (-d.delta_bytes) as i64 },
        status: match d.status {
            SectionDeltaStatus::Added => SectionDeltaStatus::Removed,
            SectionDeltaStatus::Removed => SectionDeltaStatus::Added,
            SectionDeltaStatus::Changed => SectionDeltaStatus::Changed,
        },
    }
}

proof fn lemma_filter_map_swapped(names: Seq<Seq<char>>, old: Seq<SectionModel>, new: Seq<SectionModel>)
    ensures
        names.filter_map(delta_of(new, old)) == names.filter_map(delta_of(old, new)).map_values(
            |d: DeltaModel| swapped(d),
        ),
    decreases names.len(),
{
    if names.len() > 0 {
        let init = names.drop_last();
        let n = names.last();
        lemma_filter_map_swapped(init, old, new);
        let a = section_total(old, n);
        let b = section_total(new, n);
        if a != b {
            let d = delta_entry(n, a, b)->0;
            assert(delta_entry(n, b, a) == Some(swapped(d)));
            assert((init.filter_map(delta_of(old, new)) + seq![d]).map_values(|d: DeltaModel| swapped(d))
                =~= init.filter_map(delta_of(old, new)).map_values(|d: DeltaModel| swapped(d)) + seq![swapped(d)]);
        }
    } else {
        assert(names.filter_map(delta_of(old, new)).map_values(|d: DeltaModel| swapped(d)) =~= Seq::<DeltaModel>::empty());
    }
}

/// Comparing the files the other way round lists the same section names in
/// the same order, each with its sizes exchanged, its delta negated, and
/// added and removed exchanged.
pub proof fn law_diff_sections_swap(old: Seq<SectionModel>, new: Seq<SectionModel>)
    ensures
        section_deltas(new, old) == section_deltas(old, new).map_values(|d: DeltaModel| swapped(d)),
{
    let ab = section_names(old) + section_names(new);
    let ba = section_names(new) + section_names(old);
    assert(ab.to_set() =~= ba.to_set()) by {
        assert forall|x: Seq<char>| ab.contains(x) <==> ba.contains(x) by {
            if ab.contains(x) {
                let k = choose|k: int| 0 <= k < ab.len() && ab[k] == x;
                if k < section_names(old).len() {
                    assert(ba[section_names(new).len() + k] == x);
                } else {
                    assert(ba[k - section_names(old).len()] == x);
                }
            }
            if ba.contains(x) {
                let k = choose|k: int| 0 <= k < ba.len() && ba[k] == x;
                if k < section_names(new).len() {
                    assert(ab[section_names(old).len() + k] == x);
                } else {
                    assert(ab[k - section_names(new).len()] == x);
                }
            }
        }
    }
    crate::sorting::lemma_sorted_names_same_set(ab, ba);
    let names = sorted_names(ab);
    lemma_filter_map_swapped(names, old, new);
    crate::sorting::lemma_sort_by_map(
        names.filter_map(delta_of(old, new)),
        |d: DeltaModel| swapped(d),
        delta_order(),
        delta_order(),
    );
}

/// `delta_order` is a strict order.
proof fn lemma_delta_order_strict()
    ensures
        is_strict_order(delta_order()),
{
    assert forall|a: DeltaModel, b: DeltaModel| #[trigger] delta_order()(a, b) implies !delta_order()(b, a) by {
        crate::text::lemma_lex_lt_total(a.name, b.name);
    }
    assert forall|a: DeltaModel, b: DeltaModel, c: DeltaModel|
        #[trigger] delta_order()(a, b) && #[trigger] delta_order()(b, c) implies delta_order()(a, c) by {
        if magnitude(a.delta_bytes) == magnitude(b.delta_bytes) && magnitude(b.delta_bytes) == magnitude(c.delta_bytes) {
            crate::text::lemma_lex_lt_transitive(a.name, b.name, c.name);
        }
    }
}

/// Over names without repetition, no delta entry occurs twice.
proof fn lemma_entries_once(names: Seq<Seq<char>>, old: Seq<SectionModel>, new: Seq<SectionModel>, x: DeltaModel)
    requires
        names.no_duplicates(),
    ensures
        names.filter_map(delta_of(old, new)).to_multiset().count(x) <= 1,
    decreases names.len(),
{
    broadcast use vstd::seq_lib::group_to_multiset_ensures;
    if names.len() > 0 {
        let init = names.drop_last();
        let n = names.last();
        assert(init.no_duplicates());
        lemma_entries_once(init, old, new, x);
        if delta_of(old, new)(n) == Some(x) {
            let rest = init.filter_map(delta_of(old, new));
            assert(names.filter_map(delta_of(old, new)) =~= rest.push(x));
            if rest.contains(x) {
                init.lemma_filter_map_contains(delta_of(old, new), x);
                let t = choose|t: Seq<char>| #[trigger] init.contains(t) && delta_of(old, new)(t) == Some(x);
                let k = choose|k: int| 0 <= k < init.len() && init[k] == t;
                assert(names[k] == names[names.len() - 1]);
            }
        } else if let Some(y) = delta_of(old, new)(n) {
            assert(names.filter_map(delta_of(old, new)) =~= init.filter_map(delta_of(old, new)).push(y));
        }
    }
}

/// Each name of `names` whose totals differ has its entry among the deltas of `names`.
proof fn lemma_entry_present(names: Seq<Seq<char>>, old: Seq<SectionModel>, new: Seq<SectionModel>, n: Seq<char>)
    requires
        names.contains(n),
        section_total(old, n) != section_total(new, n),
    ensures
        names.filter_map(delta_of(old, new)).contains(delta_of(old, new)(n)->0),
    decreases names.len(),
{
    let init = names.drop_last();
    let e = delta_of(old, new)(n)->0;
    if names.last() == n {
        assert(names.filter_map(delta_of(old, new)) =~= init.filter_map(delta_of(old, new)).push(e));
        assert(names.filter_map(delta_of(old, new)).last() == e);
    } else {
        let k = choose|k: int| 0 <= k < names.len() && names[k] == n;
        assert(init[k] == n);
        lemma_entry_present(init, old, new, n);
        let rest = init.filter_map(delta_of(old, new));
        let j = choose|j: int| 0 <= j < rest.len() && rest[j] == e;
        if let Some(y) = delta_of(old, new)(names.last()) {
            assert(names.filter_map(delta_of(old, new)) =~= rest.push(y));
            assert(names.filter_map(delta_of(old, new))[j] == e);
        } else {
            assert(names.filter_map(delta_of(old, new)) =~= rest);
        }
    }
}

/// The section deltas name each section of either side whose total size
/// changed, once, with its two totals and their difference; no other entry
/// occurs; and they come from the largest change to the smallest, equal
/// changes in increasing name order.
pub proof fn law_section_deltas(old: Seq<SectionModel>, new: Seq<SectionModel>)
    ensures
        forall|i: int, j: int|
            0 <= i < j < section_deltas(old, new).len() ==> {
                let a = #[trigger] section_deltas(old, new)[i];
                let b = #[trigger] section_deltas(old, new)[j];
                &&& magnitude(a.delta_bytes) >= magnitude(b.delta_bytes)
                &&& magnitude(a.delta_bytes) == magnitude(b.delta_bytes) ==> lex_lt(a.name, b.name)
            },
        forall|i: int|
            0 <= i < section_deltas(old, new).len() ==> {
                let d = #[trigger] section_deltas(old, new)[i];
                &&& (section_names(old) + section_names(new)).contains(d.name)
                &&& section_total(old, d.name) != section_total(new, d.name)
                &&& Some(d) == delta_entry(d.name, section_total(old, d.name), section_total(new, d.name))
            },
        forall|n: Seq<char>|
            #![trigger (section_names(old) + section_names(new)).contains(n)]
            (section_names(old) + section_names(new)).contains(n) && section_total(old, n) != section_total(
                new,
                n,
            ) ==> exists|i: int| 0 <= i < section_deltas(old, new).len() && #[trigger] section_deltas(old, new)[i].name == n,
{
    broadcast use vstd::seq_lib::group_to_multiset_ensures;
    let all = section_names(old) + section_names(new);
    let names = sorted_names(all);
    let f = delta_of(old, new);
    let entries = names.filter_map(f);
    let d = section_deltas(old, new);
    crate::sorting::lemma_sorted_names(all);
    crate::sorting::lemma_name_order_strict();
    lemma_delta_order_strict();
    crate::sorting::lemma_sort_by(entries, delta_order());
    assert(names.no_duplicates()) by {
        assert forall|i: int, j: int| 0 <= i < names.len() && 0 <= j < names.len() && i != j implies names[i] != names[j] by {
            if i < j {
                assert(name_order()(names[i], names[j]));
            } else {
                assert(name_order()(names[j], names[i]));
            }
            crate::text::lemma_lex_lt_irreflexive(names[i]);
        }
    }
    // Every listed delta is the entry of a name of either side.
    assert forall|i: int| 0 <= i < d.len() implies {
        let x = #[trigger] d[i];
        &&& all.contains(x.name)
        &&& section_total(old, x.name) != section_total(new, x.name)
        &&& Some(x) == delta_entry(x.name, section_total(old, x.name), section_total(new, x.name))
    } by {
        let x = d[i];
        assert(d.to_multiset().count(x) > 0);
        assert(entries.contains(x));
        names.lemma_filter_map_contains(f, x);
        let t = choose|t: Seq<char>| #[trigger] names.contains(t) && f(t) == Some(x);
        assert(names.to_set().contains(t));
        assert(all.to_set().contains(t));
    }
    // No delta occurs twice, so no name does.
    assert(d.no_duplicates()) by {
        assert forall|x: DeltaModel| d.to_multiset().contains(x) implies d.to_multiset().count(x) == 1 by {
            lemma_entries_once(names, old, new, x);
        }
        d.lemma_multiset_has_no_duplicates_conv();
    }
    assert forall|i: int, j: int| 0 <= i < j < d.len() implies {
        let a = #[trigger] d[i];
        let b = #[trigger] d[j];
        &&& magnitude(a.delta_bytes) >= magnitude(b.delta_bytes)
        &&& magnitude(a.delta_bytes) == magnitude(b.delta_bytes) ==> lex_lt(a.name, b.name)
    } by {
        assert(!delta_order()(d[j], d[i]));
        crate::text::lemma_lex_lt_total(d[i].name, d[j].name);
        if d[i].name == d[j].name {
            assert(d[i] == d[j]);
        }
    }
    // Every changed name has its entry.
    assert forall|n: Seq<char>| all.contains(n) && section_total(old, n) != section_total(new, n) implies exists|i: int|
        0 <= i < d.len() && #[trigger] d[i].name == n by {
        assert(all.to_set().contains(n));
        assert(names.to_set().contains(n));
        lemma_entry_present(names, old, new, n);
        let e = f(n)->0;
        assert(entries.to_multiset().count(e) > 0);
        assert(d.contains(e));
        let i = choose|i: int| 0 <= i < d.len() && d[i] == e;
        assert(d[i].name == n);
    }
}


// ------------------------------------------------------------- report

/// The object facts that a diff shows of each side.
#[derive(Debug)]
pub struct DiffObjectReport {
    pub format: String,
    pub architecture: String,
    pub endianness: String,
    pub entry: u64,
    pub has_debug_symbols: bool,
    pub total_sections: usize,
}

impl DiffObjectReport {
    /// The object facts of an object report.
    pub fn from_object(object: &ObjectReport) -> (res: Self)
        ensures
            res.format == object.format,
            res.architecture == object.architecture,
            res.endianness == object.endianness,
            res.entry == object.entry,
            res.has_debug_symbols == object.has_debug_symbols,
            res.total_sections == object.total_sections,
    {
        DiffObjectReport {
            format: object.format.clone(),
            architecture: object.architecture.clone(),
            endianness: object.endianness.clone(),
            entry: object.entry,
            has_debug_symbols: object.has_debug_symbols,
            total_sections: object.total_sections,
        }
    }
}

/// One side of a diff.
#[derive(Debug)]
pub struct DiffBinaryReport {
    pub path: String,
    pub file_size_bytes: u64,
    pub object: Option<DiffObjectReport>,
}

/// `d` shows the facts of `b`.
pub open spec fn shows(d: DiffBinaryReport, b: BinaryReport) -> bool {
    &&& d.path == b.path
    &&& d.file_size_bytes == b.file_size_bytes
    &&& d.object is Some <==> b.object is Some
    &&& d.object matches Some(o) ==> {
        let bo = b.object->0;
        &&& o.format == bo.format
        &&& o.architecture == bo.architecture
        &&& o.endianness == bo.endianness
        &&& o.entry == bo.entry
        &&& o.has_debug_symbols == bo.has_debug_symbols
        &&& o.total_sections == bo.total_sections
    }
}

impl DiffBinaryReport {
    /// The side of a diff that shows `binary`.
    pub fn from_binary(binary: &BinaryReport) -> (res: Self)
        ensures
            shows(res, *binary),
    {
        let object = match &binary.object {
            Some(o) => Some(DiffObjectReport::from_object(o)),
            None => None,
        };
        DiffBinaryReport { path: binary.path.clone(), file_size_bytes: binary.file_size_bytes, object }
    }
}

/// The comparison of two files.
pub struct DiffReport {
    pub old: DiffBinaryReport,
    pub new: DiffBinaryReport,
    pub file_size_delta_bytes: i64,
    pub total_section_deltas: usize,
    pub section_deltas_omitted: usize,
    pub section_deltas: Vec<SectionDeltaReport>,
}

/// The optional object report of a binary report.
pub open spec fn object_of(b: &BinaryReport) -> Option<&ObjectReport> {
    match b.object {
        Some(o) => Some(&o),
        None => None,
    }
}

/// The comparison of the files `old` and `new`: both sides, the file size
/// delta, and every section delta.
pub fn diff_paths(old: &BinaryReport, new: &BinaryReport) -> (res: DiffReport)
    ensures
        shows(res.old, *old),
        shows(res.new, *new),
        res.file_size_delta_bytes == delta_value(old.file_size_bytes, new.file_size_bytes),
        delta_views(res.section_deltas@) == section_deltas(
            object_sections(object_of(old)),
            object_sections(object_of(new)),
        ),
        res.total_section_deltas == res.section_deltas.len(),
        res.section_deltas_omitted == 0,
{
    let section_deltas = diff_sections(old.object.as_ref(), new.object.as_ref());
    let total_section_deltas = section_deltas.len();
    let file_size_delta_bytes = byte_delta(old.file_size_bytes, new.file_size_bytes);
    DiffReport {
        old: DiffBinaryReport::from_binary(old),
        new: DiffBinaryReport::from_binary(new),
        file_size_delta_bytes,
        total_section_deltas,
        section_deltas_omitted: 0,
        section_deltas,
    }
}

impl DiffReport {
    /// Keeps at most `limit` section deltas, the first ones, and records how
    /// many were dropped; no limit keeps the report as it is.
    pub fn apply_section_limit(&mut self, limit: Option<usize>)
        ensures
            final(self).old == old(self).old,
            final(self).new == old(self).new,
            final(self).file_size_delta_bytes == old(self).file_size_delta_bytes,
            final(self).total_section_deltas == old(self).total_section_deltas,
            (final(self).section_deltas@, final(self).section_deltas_omitted) == limit_outcome(
                old(self).section_deltas@,
                old(self).section_deltas_omitted,
                limit,
            ),
    {
        let limit = match limit {
            None => {
                return;
            },
            Some(l) => l,
        };
        if self.section_deltas.len() <= limit {
            return;
        }
        self.section_deltas_omitted = self.section_deltas.len() - limit;
        self.section_deltas.truncate(limit);
    }
}

} // verus!
