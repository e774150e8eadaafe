//! The report of `inspect`: a file, its object sections, its Cargo context
//! and the shrink suggestions drawn from them.

use vstd::prelude::*;
use crate::limit::limit_outcome;
use crate::cargo::CargoReport;
use crate::object_report::{BinaryReport, ObjectReport};
use crate::suggestions::{SuggestionReport, build_suggestions, suggestion_views, suggestions_for};

verus! {

/// What `inspect` reports.
pub struct InspectReport {
    pub path: String,
    pub file_size_bytes: u64,
    pub object: Option<ObjectReport>,
    pub cargo: Option<CargoReport>,
    pub suggestions: Vec<SuggestionReport>,
}

/// The report on a file and, when given, its Cargo context, with the
/// suggestions drawn from both.
pub fn inspect_path(binary: BinaryReport, cargo: Option<CargoReport>) -> (res: InspectReport)
    ensures
        res.path == binary.path,
        res.file_size_bytes == binary.file_size_bytes,
        res.object == binary.object,
        res.cargo == cargo,
        suggestion_views(res.suggestions@) == suggestions_for(
            match binary.object {
                Some(o) => Some(&o),
                None => None,
            },
            match cargo {
                Some(c) => Some(&c),
                None => None,
            },
        ),
{
    let suggestions = build_suggestions(binary.object.as_ref(), cargo.as_ref());
    InspectReport {
        path: binary.path,
        file_size_bytes: binary.file_size_bytes,
        object: binary.object,
        cargo,
        suggestions,
    }
}

impl InspectReport {
    /// Keeps at most `limit` sections of the object, the first ones, and
    /// records how many were dropped; no limit, or no object, keeps the
    /// report as it is.
    pub fn apply_section_limit(&mut self, limit: Option<usize>)
        ensures
            final(self).path == old(self).path,
            final(self).file_size_bytes == old(self).file_size_bytes,
            final(self).cargo == old(self).cargo,
            final(self).suggestions == old(self).suggestions,
            final(self).object is Some <==> old(self).object is Some,
            old(self).object matches Some(before) ==> {
                let after = final(self).object->0;
                &&& after.format == before.format
                &&& after.architecture == before.architecture
                &&& after.endianness == before.endianness
                &&& after.entry == before.entry
                &&& after.has_debug_symbols == before.has_debug_symbols
                &&& after.total_sections == before.total_sections
                &&& (after.sections@, after.sections_omitted) == limit_outcome(
                    before.sections@,
                    before.sections_omitted,
                    limit,
                )
            },
    {
        let limit = match limit {
            None => {
                return;
            },
            Some(l) => l,
        };
        match &mut self.object {
            None => {},
            Some(object) => {
                if object.sections.len() > limit {
                    object.sections_omitted = object.sections.len() - limit;
                    object.sections.truncate(limit);
                }
            },
        }
    }
}

/// `yes` or `no`.
pub fn yes_no(value: bool) -> (res: &'static str)
    ensures
        res@ == if value { "yes"@ } else { "no"@ },
{
    if value {
        "yes"
    } else {
        "no"
    }
}

} // verus!
