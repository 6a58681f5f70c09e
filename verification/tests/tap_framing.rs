//! Container framing and record detection tests.
use retro_tape::tap::legacy::{read_tap_entry, read_tap_records, read_tap_with_chunks, TapDataKind};
use retro_tape::tap::DetectedFormat;
use retro_tape::TapeError;

#[test]
fn keeps_small_records_raw() {
    let record = vec![1, 2, 3];
    let entry = read_tap_entry(&record).expect("should parse");
    assert_eq!(entry.length, 3);
    assert_eq!(entry.detected_format, DetectedFormat::Raw);
    match entry.kind {
        TapDataKind::Raw(data) => assert_eq!(data, record),
        _ => panic!("expected raw data"),
    }
}

#[test]
fn detects_vms_block() {
    let mut raw = vec![0u8; 80];
    raw[0..2].copy_from_slice(&80u16.to_le_bytes());
    raw[2] = 2;
    raw[3] = 1;
    raw[4..8].copy_from_slice(&9u32.to_le_bytes());
    raw[8..10].copy_from_slice(&0x1234u16.to_le_bytes());
    raw[10] = 0xAA;

    let entry = read_tap_entry(&raw).expect("should parse");
    match entry.kind {
        TapDataKind::VmsBlock(block) => {
            assert_eq!(block.block_size as usize, 80);
            assert_eq!(block.payload[0], 0xAA);
        },
        _ => panic!("expected VMS block"),
    }
    assert_eq!(entry.detected_format, DetectedFormat::VmsBackup);
}

#[test]
fn rejects_empty_record() {
    let err = read_tap_entry(&[]).unwrap_err();
    match err {
        TapeError::Parse(_) => {},
        _ => panic!("expected parse error"),
    }
}

#[test]
fn short_read_errors() {
    let err = read_tap_entry(&[]).unwrap_err();
    assert!(matches!(err, TapeError::Parse(_)));
}

#[test]
fn overly_large_record_rejected() {
    let data = vec![0u8; 1_048_577];
    let err = read_tap_entry(&data).unwrap_err();
    assert!(matches!(err, TapeError::UnsupportedFormat(_)));
}

#[test]
fn silent_eof_reports_error() {
    // Declares a block size larger than the buffer, so save-set decoding
    // cannot apply and the record stays raw.
    let mut data = vec![0u8; 32];
    data[0..2].copy_from_slice(&64u16.to_le_bytes());
    data[2] = 1;
    data[3] = 1;
    let entry = read_tap_entry(&data).expect("should fall back to raw");
    assert!(matches!(entry.kind, TapDataKind::Raw(_)));
}

fn frame(record: &[u8], with_trailer: bool) -> Vec<u8> {
    let mut out = Vec::new();
    out.extend_from_slice(&(record.len() as u32).to_le_bytes());
    out.extend_from_slice(record);
    if record.len() % 2 == 1 {
        out.push(0);
    }
    if with_trailer {
        out.extend_from_slice(&(record.len() as u32).to_le_bytes());
    }
    out
}

#[test]
fn framing_keeps_every_payload_byte() {
    // One odd-length record with pad and trailer, then an even one
    // without a trailer: both come back whole, nothing lost or doubled.
    let rec1 = vec![9u8, 8, 7];
    let rec2 = vec![1u8, 2, 3, 4];
    let mut image = frame(&rec1, true);
    image.extend_from_slice(&frame(&rec2, false));

    let entries = read_tap_records(&image).expect("should parse");
    assert_eq!(entries.len(), 2);
    match (&entries[0].kind, &entries[1].kind) {
        (TapDataKind::Raw(a), TapDataKind::Raw(b)) => {
            assert_eq!(a, &rec1);
            assert_eq!(b, &rec2);
        },
        _ => panic!("expected raw records"),
    }
}

#[test]
fn zero_length_fillers_are_skipped() {
    // A zero length word with its paired zero trailer, then one record:
    // the filler contributes no entry.
    let mut image = Vec::new();
    image.extend_from_slice(&0u32.to_le_bytes());
    image.extend_from_slice(&0u32.to_le_bytes());
    image.extend_from_slice(&frame(&[5u8, 6], true));

    let entries = read_tap_records(&image).expect("should parse");
    assert_eq!(entries.len(), 1);
    match &entries[0].kind {
        TapDataKind::Raw(a) => assert_eq!(a, &vec![5u8, 6]),
        _ => panic!("expected raw record"),
    }
}

#[test]
fn truncated_record_is_fatal() {
    let mut image = Vec::new();
    image.extend_from_slice(&100u32.to_le_bytes());
    image.push(1);
    let err = read_tap_records(&image).unwrap_err();
    assert!(matches!(err, TapeError::Parse(_)));
}

#[test]
fn record_splits_into_save_set_sub_blocks() {
    // One outer record holding two back-to-back save-set blocks: the
    // reader splits it into the two blocks instead of one raw record.
    let mut sub = vec![0u8; 64];
    sub[0..2].copy_from_slice(&64u16.to_le_bytes());
    sub[2] = 2;
    sub[3] = 1;
    let mut record = Vec::new();
    record.extend_from_slice(&sub);
    record.extend_from_slice(&sub);
    let mut image = Vec::new();
    image.extend_from_slice(&(record.len() as u32).to_le_bytes());
    image.extend_from_slice(&record);

    let entries = read_tap_records(&image).expect("should parse");
    assert_eq!(entries.len(), 2);
    assert!(entries.iter().all(|e| matches!(e.kind, TapDataKind::VmsBlock(_))));
    assert!(entries.iter().all(|e| e.length == 64));
}

#[test]
fn fixed_chunking_splits_whole_image() {
    let data = vec![7u8; 1200];
    let entries = read_tap_with_chunks(&data, 512).expect("should chunk");
    assert_eq!(entries.len(), 3);
    assert_eq!(entries[0].length, 512);
    assert_eq!(entries[1].length, 512);
    assert_eq!(entries[2].length, 176);
    match &entries[2].kind {
        TapDataKind::Raw(a) => assert_eq!(a.len(), 176),
        _ => panic!("expected raw chunks"),
    }
}

#[test]
fn empty_image_is_refused() {
    let err = read_tap_records(&[]).unwrap_err();
    assert!(matches!(err, TapeError::Parse(_)));
}
