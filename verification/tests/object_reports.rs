use cargo_slim::inspect::{inspect_path, yes_no};
use cargo_slim::object_report::{
    has_debug_sections, read_binary_report, read_object_report, RawObject, RawSection,
    SectionReport,
};

fn raw_section(name: Option<&str>, address: u64, size: u64) -> RawSection {
    RawSection { name: name.map(|n| n.to_string()), address, size }
}

fn section(name: &str, address: u64, size_bytes: u64) -> SectionReport {
    SectionReport { name: name.to_string(), address, size_bytes }
}

fn minimal_elf(entry: u64) -> Vec<u8> {
    let mut bytes = vec![0x7f, b'E', b'L', b'F', 2, 1, 1, 0, 0, 0, 0, 0, 0, 0, 0, 0];
    bytes.extend_from_slice(&2u16.to_le_bytes());
    bytes.extend_from_slice(&0x3eu16.to_le_bytes());
    bytes.extend_from_slice(&1u32.to_le_bytes());
    bytes.extend_from_slice(&entry.to_le_bytes());
    bytes.extend_from_slice(&0u64.to_le_bytes());
    bytes.extend_from_slice(&0u64.to_le_bytes());
    bytes.extend_from_slice(&0u32.to_le_bytes());
    bytes.extend_from_slice(&64u16.to_le_bytes());
    bytes.extend_from_slice(&56u16.to_le_bytes());
    bytes.extend_from_slice(&0u16.to_le_bytes());
    bytes.extend_from_slice(&64u16.to_le_bytes());
    bytes.extend_from_slice(&0u16.to_le_bytes());
    bytes.extend_from_slice(&0u16.to_le_bytes());
    bytes
}

#[test]
fn text_bytes_are_not_an_object() {
    let bytes = b"this is not an object file\n";
    let report = read_binary_report("notes.txt".to_string(), bytes.len() as u64, bytes);
    assert_eq!(report.path, "notes.txt");
    assert_eq!(report.file_size_bytes, 27);
    assert!(report.object.is_none());
}

#[test]
fn elf_header_is_read_as_an_object() {
    let bytes = minimal_elf(0x401000);
    let report = read_binary_report("app".to_string(), bytes.len() as u64, &bytes);
    let object = report.object.expect("an ELF header should parse as an object");
    assert_eq!(object.format, "Elf");
    assert_eq!(object.architecture, "X86_64");
    assert_eq!(object.endianness, "Little");
    assert_eq!(object.entry, 0x401000);
    assert!(object.sections.is_empty());
    assert_eq!(object.total_sections, 0);
    assert!(!object.has_debug_symbols);
}

#[test]
fn object_sections_are_sorted_largest_first_then_by_name() {
    let raw = RawObject {
        format: "Elf".to_string(),
        architecture: "X86_64".to_string(),
        endianness: "Little".to_string(),
        entry: 16,
        sections: vec![
            raw_section(Some(".bss"), 0x10, 0),
            raw_section(Some(".data"), 0x20, 10),
            raw_section(Some(".text"), 0x30, 30),
            raw_section(None, 0x40, 10),
            raw_section(Some(".comment"), 0x50, 10),
        ],
    };
    let report = read_object_report(raw);
    let names: Vec<&str> = report.sections.iter().map(|s| s.name.as_str()).collect();
    assert_eq!(names, vec![".text", ".comment", ".data", "<unnamed>"]);
    assert_eq!(report.total_sections, 4);
    assert_eq!(report.sections_omitted, 0);
    assert_eq!(report.sections[3].address, 0x40);
    assert!(!report.has_debug_symbols);
}

#[test]
fn equal_sections_keep_file_order() {
    let raw = RawObject {
        format: "MachO".to_string(),
        architecture: "Aarch64".to_string(),
        endianness: "Little".to_string(),
        entry: 0,
        sections: vec![raw_section(Some("__text"), 1, 8), raw_section(Some("__text"), 2, 8)],
    };
    let report = read_object_report(raw);
    assert_eq!(report.sections[0].address, 1);
    assert_eq!(report.sections[1].address, 2);
}

#[test]
fn debug_sections_are_detected_by_name() {
    assert!(has_debug_sections(&vec![section(".debug_info", 0, 4)]));
    assert!(has_debug_sections(&vec![section("__debug_line", 0, 4)]));
    assert!(has_debug_sections(&vec![section(".zdebug", 0, 4)]));
    assert!(!has_debug_sections(&vec![section(".zdebug_info", 0, 4)]));
    assert!(!has_debug_sections(&vec![section(".text", 0, 4), section("debug_", 0, 4)]));
    assert!(!has_debug_sections(&vec![]));
}

#[test]
fn object_report_marks_debug_symbols() {
    let raw = RawObject {
        format: "Elf".to_string(),
        architecture: "X86_64".to_string(),
        endianness: "Little".to_string(),
        entry: 0,
        sections: vec![raw_section(Some(".debug_str"), 0, 3), raw_section(Some(".text"), 0, 9)],
    };
    assert!(read_object_report(raw).has_debug_symbols);
}

fn report_with_sections(count: u64) -> cargo_slim::inspect::InspectReport {
    let raw = RawObject {
        format: "Elf".to_string(),
        architecture: "X86_64".to_string(),
        endianness: "Little".to_string(),
        entry: 0,
        sections: (0..count).map(|i| raw_section(Some(&format!(".s{i}")), i, 100 - i)).collect(),
    };
    let object = read_object_report(raw);
    let binary = cargo_slim::object_report::BinaryReport {
        path: "bin".to_string(),
        file_size_bytes: 1000,
        object: Some(object),
    };
    inspect_path(binary, None)
}

#[test]
fn section_limit_keeps_first_sections_and_counts_the_rest() {
    let mut report = report_with_sections(5);
    report.apply_section_limit(Some(2));
    let object = report.object.as_ref().unwrap();
    assert_eq!(object.sections.len(), 2);
    assert_eq!(object.sections_omitted, 3);
    assert_eq!(object.total_sections, 5);
    assert_eq!(object.sections[0].name, ".s0");
    assert!(object.total_sections >= object.sections.len());
}

#[test]
fn section_limit_applied_twice_is_applied_once() {
    let mut once = report_with_sections(5);
    once.apply_section_limit(Some(3));
    let mut twice = report_with_sections(5);
    twice.apply_section_limit(Some(3));
    twice.apply_section_limit(Some(3));
    let a = once.object.unwrap();
    let b = twice.object.unwrap();
    assert_eq!(a.sections.len(), b.sections.len());
    assert_eq!(a.sections_omitted, b.sections_omitted);
}

#[test]
fn section_limit_above_count_or_absent_changes_nothing() {
    let mut report = report_with_sections(3);
    report.apply_section_limit(Some(3));
    report.apply_section_limit(None);
    let object = report.object.unwrap();
    assert_eq!(object.sections.len(), 3);
    assert_eq!(object.sections_omitted, 0);
}

#[test]
fn inspect_without_cargo_has_no_suggestions() {
    let report = report_with_sections(2);
    assert!(report.suggestions.is_empty());
    assert!(report.cargo.is_none());
    assert_eq!(report.path, "bin");
    assert_eq!(report.file_size_bytes, 1000);
}

#[test]
fn yes_no_words() {
    assert_eq!(yes_no(true), "yes");
    assert_eq!(yes_no(false), "no");
}
