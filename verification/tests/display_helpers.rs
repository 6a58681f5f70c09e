//! Hex-dump, sanitising and description helper tests.
use retro_tape::backup::extract::{build_directory_tree, count_dirs, VmsFile};
use retro_tape::backup::vms::{RecordFormat, RmsAttributes, VmsFileHeader};
use retro_tape::pipeline::describe::{describe_metadata, describe_record_format, flatten_files_tree};
use retro_tape::pipeline::file::{
    FileMetadata, RsxFileMetadata, TapeFile, TapePath, Uic,
};
use retro_tape::utils::hex::{format_hex, format_hex_with_ascii};
use retro_tape::utils::text::{is_mostly_text, sanitize_display};

#[test]
fn hex_dump_renders_rows_exactly() {
    let data = b"ABCDEFGH12345678IJ";
    let row0 = "0000:  41 42 43 44 45 46 47 48  31 32 33 34 35 36 37 38  |ABCDEFGH12345678|";
    let row1 = format!("0010:  49 4A {}{}|IJ{}|", " ".repeat(43), " ", " ".repeat(14));
    let expected = format!("{row0}\n{row1}");
    assert_eq!(format_hex_with_ascii(data), expected);
    assert_eq!(format_hex(data), expected);
    assert_eq!(format_hex(&[]), "");
}

#[test]
fn hex_dump_marks_unprintable_bytes() {
    let dump = format_hex(&[0x00, 0x41]);
    assert!(dump.starts_with("0000:  00 41 "));
    assert!(dump.ends_with("|.A              |"));
}

#[test]
fn sanitizes_display_text() {
    assert_eq!(sanitize_display("abc DEF.123"), "abc DEF.123");
    assert_eq!(sanitize_display("a\tb"), "a..b");
    assert_eq!(sanitize_display("\u{7f}"), "..");
}

#[test]
fn text_heuristic_requires_printable_bytes() {
    assert!(is_mostly_text(b"hello\nworld\t!"));
    assert!(!is_mostly_text(b""));
    assert!(!is_mostly_text(&[0x00, 0x41]));
}

#[test]
fn record_format_labels() {
    assert_eq!(describe_record_format(0), "Undefined");
    assert_eq!(describe_record_format(2), "Variable");
    assert_eq!(describe_record_format(9), "Unknown");
}

#[test]
fn describes_rsx_metadata_lines() {
    let file = TapeFile {
        format: retro_tape::pipeline::block::TapeFormat::Rsx,
        path: TapePath::new(vec!["[1,2]".into(), "ABC".into()]),
        size_bytes: 512,
        blocks: vec![0],
        metadata: FileMetadata::Rsx(RsxFileMetadata {
            uic: Uic { group: 0o1, member: 0o2 },
            protection: 0o17,
            is_directory: true,
        }),
        children: Vec::new(),
    };
    let lines = describe_metadata(&file);
    assert_eq!(lines, vec!["Directory: true", "UIC 001,002", "Protection: 17"]);
}

#[test]
fn flattens_nested_trees_depth_first() {
    let leaf = TapeFile {
        format: retro_tape::pipeline::block::TapeFormat::Raw,
        path: TapePath::new(vec!["a".into(), "b".into()]),
        size_bytes: 0,
        blocks: vec![],
        metadata: FileMetadata::Raw,
        children: Vec::new(),
    };
    let root = TapeFile {
        format: retro_tape::pipeline::block::TapeFormat::Raw,
        path: TapePath::new(vec!["a".into()]),
        size_bytes: 0,
        blocks: vec![],
        metadata: FileMetadata::Raw,
        children: vec![leaf],
    };
    let flat = flatten_files_tree(&[root], 0);
    assert_eq!(flat.len(), 2);
    assert_eq!(flat[0].1, 0);
    assert_eq!(flat[0].0.path.to_string_path(), "a");
    assert_eq!(flat[1].1, 1);
    assert_eq!(flat[1].0.path.to_string_path(), "a/b");
}

#[test]
fn counts_directories_recursively() {
    let header = VmsFileHeader {
        file_name: "F".into(),
        file_type: String::new(),
        version: 0,
        record_format: RecordFormat::Udf,
        record_attributes: 0,
        protection_mask: 0,
        creation_date: 0,
        revision_date: 0,
        file_size_high: 0,
        file_size_low: 0,
        owner_uic: 0,
        rms: RmsAttributes { rfm: RecordFormat::Udf, rattr: 0, rattnr: 0, rattnl: 0 },
        extended: None,
    };
    let file = VmsFile {
        name: "F".into(),
        path: "/A/B/F".into(),
        headers: header,
        blocks: vec![],
    };
    let fs = build_directory_tree(&[file]);
    assert_eq!(count_dirs(&fs.root), 2);
}
