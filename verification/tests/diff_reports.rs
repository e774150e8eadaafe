use cargo_slim::diff::{
    aggregate_section_sizes, byte_delta, diff_paths, diff_sections, SectionDeltaStatus,
};
use cargo_slim::object_report::{BinaryReport, ObjectReport, SectionReport};

fn object(sections: &[(&str, u64)]) -> ObjectReport {
    let sections: Vec<SectionReport> = sections
        .iter()
        .map(|(name, size)| SectionReport { name: name.to_string(), address: 0, size_bytes: *size })
        .collect();
    ObjectReport {
        format: "Elf".to_string(),
        architecture: "X86_64".to_string(),
        endianness: "Little".to_string(),
        entry: 0,
        has_debug_symbols: false,
        total_sections: sections.len(),
        sections_omitted: 0,
        sections,
    }
}

#[test]
fn byte_delta_clamps_to_i64() {
    assert_eq!(byte_delta(0, u64::MAX), i64::MAX);
    assert_eq!(byte_delta(u64::MAX, 0), -i64::MAX);
    assert_eq!(byte_delta(3, 3 + i64::MAX as u64), i64::MAX);
}

#[test]
fn byte_delta_swapped_is_negated() {
    for (a, b) in [(10u64, 15u64), (0, 7), (u64::MAX, 1), (5, 5)] {
        assert_eq!(byte_delta(b, a), -byte_delta(a, b));
    }
}

#[test]
fn aggregate_sums_sections_of_one_name() {
    let o = object(&[(".text", 5), (".data", 3), (".text", 7)]);
    let totals = aggregate_section_sizes(Some(&o));
    assert_eq!(totals, vec![(".data".to_string(), 3), (".text".to_string(), 12)]);
    assert!(aggregate_section_sizes(None).is_empty());
}

#[test]
fn aggregate_saturates() {
    let o = object(&[("big", u64::MAX), ("big", 2)]);
    assert_eq!(aggregate_section_sizes(Some(&o)), vec![("big".to_string(), u64::MAX)]);
}

#[test]
fn section_deltas_are_ordered_by_size_of_change_then_name() {
    let old = object(&[(".text", 100), (".data", 50), (".rodata", 20), (".bss", 8)]);
    let new = object(&[(".text", 120), (".data", 30), (".eh_frame", 20), (".bss", 8)]);
    let deltas = diff_sections(Some(&old), Some(&new));
    let summary: Vec<(&str, i64, SectionDeltaStatus)> = deltas
        .iter()
        .map(|d| (d.name.as_str(), d.delta_bytes, d.status))
        .collect();
    assert_eq!(
        summary,
        vec![
            (".data", -20, SectionDeltaStatus::Changed),
            (".eh_frame", 20, SectionDeltaStatus::Added),
            (".rodata", -20, SectionDeltaStatus::Removed),
            (".text", 20, SectionDeltaStatus::Changed),
        ]
    );
    assert_eq!(deltas[1].old_size_bytes, 0);
    assert_eq!(deltas[1].new_size_bytes, 20);
}

#[test]
fn swapping_sides_negates_each_delta_in_the_same_order() {
    let a = object(&[(".text", 100), (".data", 50), (".rodata", 20)]);
    let b = object(&[(".text", 130), (".data", 10), (".tbss", 4)]);
    let forward = diff_sections(Some(&a), Some(&b));
    let backward = diff_sections(Some(&b), Some(&a));
    assert_eq!(forward.len(), backward.len());
    for (f, r) in forward.iter().zip(backward.iter()) {
        assert_eq!(f.name, r.name);
        assert_eq!(f.delta_bytes, -r.delta_bytes);
        assert_eq!(f.old_size_bytes, r.new_size_bytes);
        let swapped = match f.status {
            SectionDeltaStatus::Added => SectionDeltaStatus::Removed,
            SectionDeltaStatus::Removed => SectionDeltaStatus::Added,
            SectionDeltaStatus::Changed => SectionDeltaStatus::Changed,
        };
        assert_eq!(r.status, swapped);
    }
}

#[test]
fn no_objects_no_deltas() {
    assert!(diff_sections(None, None).is_empty());
    let o = object(&[(".text", 1)]);
    let d = diff_sections(None, Some(&o));
    assert_eq!(d.len(), 1);
    assert_eq!(d[0].status, SectionDeltaStatus::Added);
}

#[test]
fn status_names() {
    assert_eq!(SectionDeltaStatus::Added.as_str(), "added");
    assert_eq!(SectionDeltaStatus::Removed.as_str(), "removed");
    assert_eq!(SectionDeltaStatus::Changed.as_str(), "changed");
}

#[test]
fn diff_report_limits_deltas() {
    let old = BinaryReport {
        path: "old".to_string(),
        file_size_bytes: 1000,
        object: Some(object(&[("a", 1), ("b", 2), ("c", 3)])),
    };
    let new = BinaryReport { path: "new".to_string(), file_size_bytes: 900, object: None };
    let mut report = diff_paths(&old, &new);
    assert_eq!(report.file_size_delta_bytes, -100);
    assert_eq!(report.total_section_deltas, 3);
    assert_eq!(report.old.path, "old");
    assert!(report.new.object.is_none());
    assert_eq!(report.old.object.as_ref().unwrap().total_sections, 3);
    report.apply_section_limit(Some(1));
    assert_eq!(report.section_deltas.len(), 1);
    assert_eq!(report.section_deltas_omitted, 2);
    assert_eq!(report.section_deltas[0].name, "c");
    report.apply_section_limit(Some(1));
    assert_eq!(report.section_deltas_omitted, 2);
}

#[test]
fn section_deltas_name_each_changed_section_once() {
    let old = object(&[(".text", 10), (".text", 5), (".data", 7)]);
    let new = object(&[(".text", 40), (".data", 7), (".data", 1)]);
    let deltas = diff_sections(Some(&old), Some(&new));
    let summary: Vec<(&str, u64, u64, i64)> = deltas
        .iter()
        .map(|d| (d.name.as_str(), d.old_size_bytes, d.new_size_bytes, d.delta_bytes))
        .collect();
    assert_eq!(summary, vec![(".text", 15, 40, 25), (".data", 7, 8, 1)]);
}
