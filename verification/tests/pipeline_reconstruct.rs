//! Save-set grouping, fragment ordering and extraction planning tests.
use retro_tape::pipeline::block::{BlockClassification, TapeBlock, TapeFormat, VmsBlockKind};
use retro_tape::pipeline::extract::extract_file;
use retro_tape::pipeline::file::{FileMetadata, Rt11FileMetadata, TapeFile, TapePath};
use retro_tape::pipeline::vms::reconstruct::{
    assemble_group_payload, reconstruct_vms_from_collected,
};
use retro_tape::pipeline::vms::collect_vms_blocks;

fn vms_block(index: u32, raw: Vec<u8>) -> TapeBlock {
    TapeBlock {
        index,
        size: raw.len(),
        raw,
        classification: BlockClassification::Vms(VmsBlockKind::Placeholder),
    }
}

fn header_block(index: u32, name: &str, ftype: &str, version: u16) -> TapeBlock {
    let mut raw = vec![0u8; 32];
    raw[0] = 0xC0;
    raw[4..6].copy_from_slice(&version.to_le_bytes());
    raw[8] = name.len() as u8;
    raw[9] = ftype.len() as u8;
    raw[10..10 + name.len()].copy_from_slice(name.as_bytes());
    raw[10 + name.len()..10 + name.len() + ftype.len()].copy_from_slice(ftype.as_bytes());
    vms_block(index, raw)
}

fn fragment_block(index: u32, vbn: u32, payload: &[u8]) -> TapeBlock {
    let mut raw = vec![0u8; 8];
    raw[0] = 0xC4;
    raw[4..8].copy_from_slice(&vbn.to_le_bytes());
    raw.extend_from_slice(payload);
    vms_block(index, raw)
}

#[test]
fn save_set_fragments_reassemble_in_vbn_order() {
    // A header, then the second fragment arriving before the first:
    // reassembly follows virtual block numbers, not arrival order.
    let blocks = vec![
        header_block(0, "FILE", "TXT", 3),
        fragment_block(1, 2, b"B"),
        fragment_block(2, 1, b"A"),
    ];
    let collected = collect_vms_blocks(&blocks);
    assert_eq!(collected.len(), 1);

    let files = reconstruct_vms_from_collected(&collected);
    assert_eq!(files.len(), 1);
    assert_eq!(files[0].path.to_string_path(), "FILE.TXT;3");
    assert_eq!(files[0].blocks, vec![1, 2]);
    assert_eq!(files[0].size_bytes, 2);

    let payload = assemble_group_payload(&collected[0].1);
    assert_eq!(payload, b"AB".to_vec());
}

#[test]
fn extension_and_ident_attach_to_latest_group() {
    let mut xh3 = vec![0u8; 12];
    xh3[0] = 0xC2;
    xh3[4..8].copy_from_slice(&0x00020001u32.to_le_bytes());
    xh3[8..10].copy_from_slice(&7u16.to_le_bytes());

    let blocks = vec![header_block(0, "A", "", 1), vms_block(1, xh3)];
    let collected = collect_vms_blocks(&blocks);
    assert_eq!(collected.len(), 1);
    let files = reconstruct_vms_from_collected(&collected);
    match &files[0].metadata {
        FileMetadata::Vms(m) => {
            assert_eq!(m.file_id.num, 1);
            assert_eq!(m.file_id.seq, 2);
            assert_eq!(m.seq, 7);
        },
        other => panic!("expected save-set metadata, got {other:?}"),
    }
}

fn plain_block(index: u32, raw: Vec<u8>) -> TapeBlock {
    TapeBlock { index, size: raw.len(), raw, classification: BlockClassification::Raw }
}

#[test]
fn rt11_extraction_truncates_to_declared_blocks() {
    // Two 512-byte blocks back a one-block entry: exactly 512 bytes are
    // written, not 1024.
    let blocks = vec![plain_block(0, vec![0xAB; 512]), plain_block(1, vec![0xCD; 512])];
    let entry = TapeFile {
        format: TapeFormat::Rt11,
        path: TapePath::new(vec!["rt11_dir_00000".into(), "DATA".into()]),
        size_bytes: 512,
        blocks: vec![0, 1],
        metadata: FileMetadata::Rt11(Rt11FileMetadata {
            start_block: 0,
            length_blocks: 1,
            ext: String::new(),
        }),
        children: Vec::new(),
    };
    let plan = extract_file(&entry, &blocks);
    assert_eq!(plan.data.len(), 512);
    assert!(plan.data.iter().all(|b| *b == 0xAB));
    assert!(!plan.is_directory);
    assert_eq!(plan.path, "rt11_dir_00000/DATA");
}

#[test]
fn rt11_extraction_appends_extension() {
    let blocks = vec![plain_block(0, vec![1u8; 512])];
    let entry = TapeFile {
        format: TapeFormat::Rt11,
        path: TapePath::new(vec!["rt11_dir_00000".into(), "PROG".into()]),
        size_bytes: 512,
        blocks: vec![0],
        metadata: FileMetadata::Rt11(Rt11FileMetadata {
            start_block: 0,
            length_blocks: 1,
            ext: "SAV".into(),
        }),
        children: Vec::new(),
    };
    let plan = extract_file(&entry, &blocks);
    assert_eq!(plan.path, "rt11_dir_00000/PROG.SAV");
}

#[test]
fn raw_extraction_sanitizes_paths() {
    let blocks = vec![plain_block(0, vec![9u8, 9])];
    let entry = TapeFile {
        format: TapeFormat::Raw,
        path: TapePath::new(vec!["block 00000?".into()]),
        size_bytes: 2,
        blocks: vec![0],
        metadata: FileMetadata::Raw,
        children: Vec::new(),
    };
    let plan = extract_file(&entry, &blocks);
    assert_eq!(plan.path, "block_00000_");
    assert_eq!(plan.data, vec![9u8, 9]);
}

#[test]
fn missing_blocks_are_skipped_not_fatal() {
    let blocks = vec![plain_block(5, vec![1u8, 2, 3])];
    let entry = TapeFile {
        format: TapeFormat::Raw,
        path: TapePath::new(vec!["partial".into()]),
        size_bytes: 3,
        blocks: vec![4, 5],
        metadata: FileMetadata::Raw,
        children: Vec::new(),
    };
    let plan = extract_file(&entry, &blocks);
    assert_eq!(plan.data, vec![1u8, 2, 3]);
}

#[test]
fn save_set_extraction_refuses_other_formats() {
    let entry = TapeFile {
        format: TapeFormat::Raw,
        path: TapePath::new(vec!["x".into()]),
        size_bytes: 0,
        blocks: vec![],
        metadata: FileMetadata::Raw,
        children: Vec::new(),
    };
    let err = retro_tape::pipeline::extract::vms::extract_vms_file(&entry, &[]).unwrap_err();
    assert!(matches!(err, retro_tape::TapeError::UnsupportedFormat(_)));
}

#[test]
fn reconstruct_all_builds_rsx_tree() {
    let mut raw = vec![0u8; 512];
    raw[0] = 0x31;
    raw[1] = 0x00;
    raw[2..4].copy_from_slice(&1683u16.to_le_bytes());
    raw[10..12].copy_from_slice(&0o1u16.to_le_bytes());
    raw[12..14].copy_from_slice(&0o2u16.to_le_bytes());
    let mut blocks = vec![TapeBlock {
        index: 0,
        size: 512,
        raw,
        classification: BlockClassification::Unknown,
    }];
    let dominant = retro_tape::pipeline::detect::analyze_blocks(&mut blocks);
    assert_eq!(dominant, TapeFormat::Rsx);
    let files = retro_tape::pipeline::reconstruct::reconstruct_all(&blocks);
    assert_eq!(files.len(), 1);
    assert_eq!(files[0].path.to_string_path(), "[1,2]");
    assert_eq!(files[0].children.len(), 1);
    assert_eq!(files[0].children[0].path.to_string_path(), "[1,2]/ABC");
}
