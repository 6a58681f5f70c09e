//! File assembly and directory tree tests.
use retro_tape::backup::extract::{
    assemble_files, assemble_vms_files, build_directory_tree, ExtractedFile, VmsFile,
};
use retro_tape::backup::vms::{BackupBlock, RecordFormat, RmsAttributes, VmsFileHeader};
use retro_tape::tap::legacy::{TapDataKind, TapEntry};
use retro_tape::tap::DetectedFormat;

fn make_block(seq: u32, payload: &[u8]) -> BackupBlock {
    BackupBlock {
        block_size: (10 + payload.len()) as u16,
        format_version: 1,
        phase: 1,
        sequence_number: seq,
        checksum: 0,
        payload: payload.to_vec(),
    }
}

#[test]
fn groups_blocks_by_sequence() {
    let entries = vec![
        TapEntry {
            length: 12,
            kind: TapDataKind::VmsBlock(make_block(1, b"hello ")),
            log_level: None,
            detected_format: DetectedFormat::VmsBackup,
        },
        TapEntry {
            length: 12,
            kind: TapDataKind::VmsBlock(make_block(2, b"world")),
            log_level: None,
            detected_format: DetectedFormat::VmsBackup,
        },
        TapEntry {
            length: 11,
            kind: TapDataKind::VmsBlock(make_block(1, b"bye")),
            log_level: None,
            detected_format: DetectedFormat::VmsBackup,
        },
    ];

    let files = assemble_files(&entries);

    assert_eq!(files.len(), 2);
    assert_eq!(files[0].name, "file_0");
    assert_eq!(files[1].name, "file_1");

    let payloads: Vec<Vec<u8>> = files.iter().map(ExtractedFile::payload).collect();
    assert_eq!(payloads[0], b"hello world".to_vec());
    assert_eq!(payloads[1], b"bye".to_vec());
}

#[test]
fn ignores_raw_entries() {
    let entries = vec![
        TapEntry {
            length: 5,
            kind: TapDataKind::Raw(vec![1, 2, 3]),
            log_level: None,
            detected_format: DetectedFormat::Raw,
        },
        TapEntry {
            length: 12,
            kind: TapDataKind::VmsBlock(make_block(1, b"a")),
            log_level: None,
            detected_format: DetectedFormat::VmsBackup,
        },
    ];

    let files = assemble_files(&entries);
    assert_eq!(files.len(), 1);
    assert_eq!(files[0].payload(), b"a".to_vec());
}

fn fh2_payload(name: &str) -> Vec<u8> {
    let mut data = Vec::new();
    data.push(0x02);
    data.push(name.len() as u8);
    data.extend_from_slice(name.as_bytes());
    data.extend_from_slice(&1u16.to_le_bytes());
    data.push(0);
    data.extend_from_slice(&0x10u16.to_le_bytes());
    data.extend_from_slice(&0x0001u16.to_le_bytes());
    data.extend_from_slice(&1u64.to_le_bytes());
    data.extend_from_slice(&2u64.to_le_bytes());
    data.extend_from_slice(&0u32.to_le_bytes());
    data.extend_from_slice(&1u32.to_le_bytes());
    data.extend_from_slice(&0x10u32.to_le_bytes());
    data.extend_from_slice(&0u16.to_le_bytes());
    data.extend_from_slice(&0u16.to_le_bytes());
    data.extend_from_slice(&0u16.to_le_bytes());
    data
}

#[test]
fn assembles_vms_files_from_headers() {
    let entries = vec![
        TapEntry {
            length: 32,
            kind: TapDataKind::VmsBlock(make_block(1, &fh2_payload("DIR1.FILE1"))),
            log_level: None,
            detected_format: DetectedFormat::VmsBackup,
        },
        TapEntry {
            length: 12,
            kind: TapDataKind::VmsBlock(make_block(2, b"data1")),
            log_level: None,
            detected_format: DetectedFormat::VmsBackup,
        },
        TapEntry {
            length: 32,
            kind: TapDataKind::VmsBlock(make_block(3, &fh2_payload("DIR1.FILE2"))),
            log_level: None,
            detected_format: DetectedFormat::VmsBackup,
        },
        TapEntry {
            length: 12,
            kind: TapDataKind::VmsBlock(make_block(4, b"data2")),
            log_level: None,
            detected_format: DetectedFormat::VmsBackup,
        },
    ];

    let files = assemble_vms_files(&entries);
    assert_eq!(files.len(), 2);
    assert_eq!(files[0].blocks.len(), 1);
    assert_eq!(files[1].blocks.len(), 1);
    assert!(files[0].path.contains("DIR1"));
}

#[test]
fn ambient_directory_prefixes_later_files() {
    // A directory record sets the ambient prefix; the file finalised
    // afterwards carries it, name unchanged.
    let mut dir_payload = vec![0x04u8, 5];
    dir_payload.extend_from_slice(b"DIR2/");
    let entries = vec![
        TapEntry {
            length: 17,
            kind: TapDataKind::VmsBlock(make_block(1, &dir_payload)),
            log_level: None,
            detected_format: DetectedFormat::VmsBackup,
        },
        TapEntry {
            length: 32,
            kind: TapDataKind::VmsBlock(make_block(2, &fh2_payload("NOTES.TXT"))),
            log_level: None,
            detected_format: DetectedFormat::VmsBackup,
        },
        TapEntry {
            length: 12,
            kind: TapDataKind::VmsBlock(make_block(3, b"body")),
            log_level: None,
            detected_format: DetectedFormat::VmsBackup,
        },
    ];
    let files = assemble_vms_files(&entries);
    assert_eq!(files.len(), 1);
    assert_eq!(files[0].name, "NOTES.TXT");
    assert_eq!(files[0].path, "DIR2/NOTES.TXT");
    assert_eq!(files[0].blocks.len(), 1);
    assert_eq!(files[0].blocks[0].payload, b"body".to_vec());
}

#[test]
fn builds_directory_tree_from_files() {
    let header = VmsFileHeader {
        file_name: "FILE1".into(),
        file_type: "TXT".into(),
        version: 1,
        record_format: RecordFormat::Udf,
        record_attributes: 0,
        protection_mask: 0,
        creation_date: 0,
        revision_date: 0,
        file_size_high: 0,
        file_size_low: 0,
        owner_uic: 0,
        rms: RmsAttributes { rfm: RecordFormat::Udf, rattr: 0, rattnr: 0, rattnl: 0 },
        extended: None,
    };
    let file = VmsFile {
        name: "FILE1.TXT".into(),
        path: "/DIR/FILE1.TXT".into(),
        headers: header.clone(),
        blocks: vec![],
    };
    let fs = build_directory_tree(&[file]);
    assert_eq!(fs.root.children.len(), 1);
    assert_eq!(fs.root.children[0].files.len(), 1);
}

#[test]
fn tree_splits_at_each_directory_level() {
    let header = VmsFileHeader {
        file_name: "X".into(),
        file_type: String::new(),
        version: 0,
        record_format: RecordFormat::Udf,
        record_attributes: 0,
        protection_mask: 0,
        creation_date: 0,
        revision_date: 0,
        file_size_high: 0,
        file_size_low: 0,
        owner_uic: 0,
        rms: RmsAttributes { rfm: RecordFormat::Udf, rattr: 0, rattnr: 0, rattnl: 0 },
        extended: None,
    };
    let file1 = VmsFile {
        name: "file1".into(),
        path: "/A/B/file1".into(),
        headers: header.clone(),
        blocks: vec![],
    };
    let file2 = VmsFile {
        name: "file2".into(),
        path: "/A/C/file2".into(),
        headers: header,
        blocks: vec![],
    };
    let fs = build_directory_tree(&[file1, file2]);
    assert_eq!(fs.root.children.len(), 1);
    let a = &fs.root.children[0];
    assert_eq!(a.name, "A");
    assert_eq!(a.children.len(), 2);
    assert_eq!(a.children[0].name, "B");
    assert_eq!(a.children[1].name, "C");
    assert_eq!(a.children[0].files, vec!["file1".to_string()]);
    assert_eq!(a.children[1].files, vec!["file2".to_string()]);
}
