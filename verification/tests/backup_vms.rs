//! Save-set record decoding tests.
use retro_tape::backup::vms::{
    format_protection, parse_directory_record, parse_fh2_record, parse_record_format,
    parse_xh2_record, read_backup_block, RecordFormat,
};
use retro_tape::TapeError;

#[test]
fn parses_minimal_block() {
    let mut raw = vec![0u8; 12];
    raw[0..2].copy_from_slice(&12u16.to_le_bytes());
    raw[2] = 2;
    raw[3] = 1;
    raw[4..8].copy_from_slice(&5u32.to_le_bytes());
    raw[8..10].copy_from_slice(&0xABCDu16.to_le_bytes());
    raw[10] = 0x11;
    raw[11] = 0x22;

    let block = read_backup_block(&raw).expect("should parse");

    assert_eq!(block.block_size, 12);
    assert_eq!(block.format_version, 2);
    assert_eq!(block.phase, 1);
    assert_eq!(block.sequence_number, 5);
    assert_eq!(block.checksum, 0xABCD);
    assert_eq!(block.payload, vec![0x11, 0x22]);
}

#[test]
fn rejects_non_phase_one() {
    let mut raw = vec![0u8; 10];
    raw[0..2].copy_from_slice(&10u16.to_le_bytes());
    raw[3] = 2;

    let err = read_backup_block(&raw).unwrap_err();
    match err {
        TapeError::UnsupportedFormat(msg) => assert!(msg.contains("Phase-1")),
        other => panic!("unexpected error {other:?}"),
    }
}

#[test]
fn parses_fh2_record() {
    let mut data = Vec::new();
    data.push(0x02);
    let name = "FILE.TXT";
    data.push(name.len() as u8);
    data.extend_from_slice(name.as_bytes());
    data.extend_from_slice(&3u16.to_le_bytes());
    data.push(2);
    data.extend_from_slice(&0x10u16.to_le_bytes());
    data.extend_from_slice(&0x1234u16.to_le_bytes());
    data.extend_from_slice(&11u64.to_le_bytes());
    data.extend_from_slice(&22u64.to_le_bytes());
    data.extend_from_slice(&1u32.to_le_bytes());
    data.extend_from_slice(&2u32.to_le_bytes());
    data.extend_from_slice(&0xAAAAu32.to_le_bytes());
    data.extend_from_slice(&0x20u16.to_le_bytes());
    data.extend_from_slice(&0x30u16.to_le_bytes());
    data.extend_from_slice(&0x40u16.to_le_bytes());

    let header = parse_fh2_record(&data).unwrap();
    assert_eq!(header.file_name, "FILE");
    assert_eq!(header.file_type, "TXT");
    assert_eq!(header.version, 3);
    assert!(matches!(header.record_format, RecordFormat::Var));
    assert_eq!(header.record_attributes, 0x10);
    assert_eq!(header.protection_mask, 0x1234);
    assert_eq!(header.creation_date, 11);
    assert_eq!(header.revision_date, 22);
    assert_eq!(header.file_size_high, 1);
    assert_eq!(header.file_size_low, 2);
    assert_eq!(header.owner_uic, 0xAAAA);
    assert_eq!(header.rms.rattr, 0x20);
    assert_eq!(header.rms.rattnr, 0x30);
    assert_eq!(header.rms.rattnl, 0x40);
}

#[test]
fn parses_xh2_record() {
    let mut data = Vec::new();
    data.push(0x0C);
    data.extend_from_slice(&1u16.to_le_bytes());
    data.extend_from_slice(&2u64.to_le_bytes());
    data.extend_from_slice(&3u32.to_le_bytes());
    data.extend_from_slice(&4u16.to_le_bytes());
    data.extend_from_slice(&5u32.to_le_bytes());
    data.extend_from_slice(&6u32.to_le_bytes());

    let xh2 = parse_xh2_record(&data).unwrap();
    assert_eq!(xh2.backup_flags, Some(1));
    assert_eq!(xh2.high_precision_timestamp, Some(2));
    assert_eq!(xh2.acp_attributes, Some(3));
    assert_eq!(xh2.journaling_flags, Some(4));
    assert_eq!(xh2.file_id, Some(5));
    assert_eq!(xh2.sequence_number, Some(6));
}

#[test]
fn parses_short_xh2_record() {
    // The short extension shape: flags, journaling flags, timestamp.
    let mut data = Vec::new();
    data.push(0x0C);
    data.extend_from_slice(&7u16.to_le_bytes());
    data.extend_from_slice(&8u16.to_le_bytes());
    data.extend_from_slice(&9u64.to_le_bytes());

    let xh2 = parse_xh2_record(&data).unwrap();
    assert_eq!(xh2.backup_flags, Some(7));
    assert_eq!(xh2.journaling_flags, Some(8));
    assert_eq!(xh2.high_precision_timestamp, Some(9));
    assert_eq!(xh2.acp_attributes, None);
    assert_eq!(xh2.file_id, None);
    assert_eq!(xh2.sequence_number, None);
}

#[test]
fn parses_directory_record() {
    let mut data = vec![0x04, 5];
    data.extend_from_slice(b"DIR1/");
    let path = parse_directory_record(&data).unwrap();
    assert_eq!(path, "DIR1/");
}

#[test]
fn formats_protection() {
    let text = format_protection(0xFFFF);
    assert!(text.contains("R") && text.contains("W") && text.contains("E") && text.contains("D"));
    let parts: Vec<&str> = text.split(',').collect();
    assert_eq!(parts.len(), 4);
}

#[test]
fn maps_record_format() {
    assert!(matches!(parse_record_format(0), RecordFormat::Udf));
    assert!(matches!(parse_record_format(3), RecordFormat::Vfc));
    assert!(matches!(parse_record_format(9), RecordFormat::Unknown(_)));
}

#[test]
fn protection_mask_full_rights() {
    let text = format_protection(0xFFFF);
    assert_eq!(text, "(RWED),(RWED),(RWED),(RWED)");
    assert_eq!(format_protection(0x0000), "(),(),(),()");
    assert_eq!(format_protection(0x8000), "(R),(),(),()");
}
