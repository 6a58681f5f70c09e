//! Classification, Rad50 decoding and per-format block decoding tests.
use retro_tape::pipeline::block::{BlockClassification, TapeBlock, TapeFormat, VmsBlockKind};
use retro_tape::pipeline::detect::{analyze_blocks, detect_block_format};
use retro_tape::pipeline::parse::decode_rad50_word;
use retro_tape::pipeline::parse::vms::decode_vms_time;

fn raw_block(index: u32, raw: Vec<u8>) -> TapeBlock {
    TapeBlock { index, size: raw.len(), raw, classification: BlockClassification::Unknown }
}

#[test]
fn rad50_word_zero_is_empty() {
    assert_eq!(decode_rad50_word(0), "");
}

#[test]
fn rad50_decodes_all_symbol_classes() {
    // 1*1600 + 2*40 + 3 spells the first three letters.
    assert_eq!(decode_rad50_word(1683), "ABC");
    // Space symbols are suppressed, not emitted.
    assert_eq!(decode_rad50_word(3), "C");
    assert_eq!(decode_rad50_word(1600), "A");
    // 27, 28, 29 are the punctuation symbols; 30 onward digits.
    assert_eq!(decode_rad50_word(27 * 1600 + 28 * 40 + 29), "$.%");
    assert_eq!(decode_rad50_word(30 * 1600 + 39 * 40 + 35), "095");
}

#[test]
fn rad50_never_panics_on_extremes() {
    let _ = decode_rad50_word(u16::MAX);
    let _ = decode_rad50_word(64000);
    let _ = decode_rad50_word(1);
}

#[test]
fn classifier_all_raw_is_unknown() {
    let mut blocks = vec![raw_block(0, vec![0u8; 10]), raw_block(1, vec![0xFFu8; 17])];
    let dominant = analyze_blocks(&mut blocks);
    assert_eq!(dominant, TapeFormat::Unknown);
    assert!(matches!(blocks[0].classification, BlockClassification::Raw));
}

fn vms_style_block(index: u32) -> TapeBlock {
    let mut raw = vec![0u8; 24];
    raw[0] = 0x02;
    raw[2] = 0x44;
    raw_block(index, raw)
}

fn rsx_style_block(index: u32) -> TapeBlock {
    let mut raw = vec![0u8; 512];
    raw[0] = 0x31;
    raw[1] = 0x00;
    raw_block(index, raw)
}

#[test]
fn classifier_majority_picks_plurality() {
    let mut blocks = vec![
        vms_style_block(0),
        vms_style_block(1),
        vms_style_block(2),
        rsx_style_block(3),
    ];
    let dominant = analyze_blocks(&mut blocks);
    assert_eq!(dominant, TapeFormat::Vms);
    assert!(matches!(blocks[0].classification, BlockClassification::Vms(VmsBlockKind::Placeholder)));
    assert!(matches!(blocks[3].classification, BlockClassification::Rsx(_)));
}

#[test]
fn classifier_ties_break_by_priority() {
    // One save-set block against one RSX block: the save-set format wins
    // the tie by fixed priority.
    let mut blocks = vec![rsx_style_block(0), vms_style_block(1)];
    assert_eq!(analyze_blocks(&mut blocks), TapeFormat::Vms);
}

#[test]
fn detect_block_format_priority() {
    let b = vms_style_block(0);
    assert!(matches!(detect_block_format(&b), BlockClassification::Vms(_)));
    let b = rsx_style_block(1);
    assert!(matches!(detect_block_format(&b), BlockClassification::Rsx(_)));
    let b = raw_block(2, vec![0u8; 100]);
    assert!(matches!(detect_block_format(&b), BlockClassification::Raw));
}

#[test]
fn parses_rsx_directory_header() {
    let mut raw = vec![0u8; 512];
    raw[0] = 0x31;
    raw[1] = 0x00;
    raw[2..4].copy_from_slice(&1683u16.to_le_bytes());
    raw[8..10].copy_from_slice(&0x8000u16.to_le_bytes());
    raw[10..12].copy_from_slice(&0o100u16.to_le_bytes());
    raw[12..14].copy_from_slice(&0o200u16.to_le_bytes());
    raw[14..16].copy_from_slice(&0x1234u16.to_le_bytes());
    let mut block = raw_block(0, raw);
    block.classification = detect_block_format(&block);

    match retro_tape::pipeline::parse::parse_classified_block(&block) {
        Some(retro_tape::pipeline::parse::ParsedBlock::Rsx(info)) => {
            assert_eq!(info.name, "ABC");
            assert!(info.is_directory);
            assert_eq!(info.uic.group, 0o100);
            assert_eq!(info.uic.member, 0o200);
            assert_eq!(info.protection, 0x1234);
        },
        other => panic!("expected an RSX header, got {other:?}"),
    }
}

#[test]
fn parses_rt11_entries_until_end_marker() {
    let mut raw = vec![0u8; 512];
    // First entry: name ABC, extension A, start 7, length 2.
    raw[0..2].copy_from_slice(&1683u16.to_le_bytes());
    raw[2..4].copy_from_slice(&1600u16.to_le_bytes());
    raw[4..6].copy_from_slice(&7u16.to_le_bytes());
    raw[6..8].copy_from_slice(&2u16.to_le_bytes());
    // Second entry is all zero: skipped.
    // Third entry is the end marker: name 0, extension 1.
    raw[18..20].copy_from_slice(&1u16.to_le_bytes());
    // A fourth entry after the marker must not be read.
    raw[24..26].copy_from_slice(&1683u16.to_le_bytes());
    let block = raw_block(0, raw);

    let info = {
        let mut b = block;
        b.classification = BlockClassification::Rt11(retro_tape::pipeline::block::Rt11BlockKind::Placeholder);
        match retro_tape::pipeline::parse::parse_classified_block(&b) {
            Some(retro_tape::pipeline::parse::ParsedBlock::Rt11(i)) => i,
            other => panic!("expected RT-11 entries, got {other:?}"),
        }
    };
    assert_eq!(info.entries.len(), 1);
    assert_eq!(info.entries[0].name, "ABC");
    assert_eq!(info.entries[0].ext, "A");
    assert_eq!(info.entries[0].start_block, 7);
    assert_eq!(info.entries[0].length_blocks, 2);
}

#[test]
fn parses_rsts_entries_and_skips_blank() {
    let mut raw = vec![0u8; 64];
    // First 32-byte entry is blank and skipped; second holds a file.
    raw[32..34].copy_from_slice(&1u16.to_le_bytes());
    raw[34..36].copy_from_slice(&1683u16.to_le_bytes());
    raw[36..38].copy_from_slice(&1600u16.to_le_bytes());
    raw[38..40].copy_from_slice(&0o10u16.to_le_bytes());
    raw[40..42].copy_from_slice(&0o20u16.to_le_bytes());
    raw[42..44].copy_from_slice(&3u16.to_le_bytes());
    let mut block = raw_block(0, raw);
    block.classification = BlockClassification::Rsts(
        retro_tape::pipeline::block::RstsBlockKind::Placeholder,
    );

    match retro_tape::pipeline::parse::parse_classified_block(&block) {
        Some(retro_tape::pipeline::parse::ParsedBlock::Rsts(info)) => {
            assert_eq!(info.entries.len(), 1);
            assert_eq!(info.entries[0].name, "ABCA");
            assert_eq!(info.entries[0].status, 1);
            assert_eq!(info.entries[0].blocks, 3);
            assert_eq!(info.entries[0].owner_uic.group, 0o10);
        },
        other => panic!("expected RSTS entries, got {other:?}"),
    }
}

#[test]
fn vms_timestamps_render_in_utc() {
    assert_eq!(decode_vms_time(0), None);
    // The tick count whose seconds equal the Unix epoch exactly.
    let epoch_ticks: u64 = 3_506_716_800u64 * 10_000_000;
    assert_eq!(decode_vms_time(epoch_ticks).as_deref(), Some("1970-01-01 00:00:00"));
    // One day and one second later.
    let later = epoch_ticks + (86_400 + 1) * 10_000_000;
    assert_eq!(decode_vms_time(later).as_deref(), Some("1970-01-02 00:00:01"));
}
