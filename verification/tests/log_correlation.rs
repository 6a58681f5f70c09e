//! Log parsing, metadata capture and correlation tests.
use retro_tape::log::parse::{
    correlate_log, find_record_index, parse_log, DriveMetadata, LogData, LogEntry, LogLevel,
};
use retro_tape::tap::legacy::{TapDataKind, TapEntry};
use retro_tape::tap::DetectedFormat;

#[test]
fn captures_metadata() {
    let mut metadata = DriveMetadata::default();
    retro_tape::log::parse::parse_drive_metadata("Tracks = 80", &mut metadata);
    retro_tape::log::parse::parse_drive_metadata("Density = DD", &mut metadata);
    retro_tape::log::parse::parse_drive_metadata("Blocks read = 1024", &mut metadata);

    assert_eq!(metadata.get("Tracks").unwrap(), "80");
    assert_eq!(metadata.get("Density").unwrap(), "DD");
    assert_eq!(metadata.get("Blocks read").unwrap(), "1024");
}

#[test]
fn correlates_record_numbers() {
    let mut entries = vec![
        TapEntry {
            length: 1,
            kind: TapDataKind::Raw(vec![]),
            log_level: None,
            detected_format: DetectedFormat::Raw,
        },
        TapEntry {
            length: 1,
            kind: TapDataKind::Raw(vec![]),
            log_level: None,
            detected_format: DetectedFormat::Raw,
        },
    ];

    let log = LogData {
        entries: vec![
            LogEntry { line: "Record 1 processed".into(), level: LogLevel::Info },
            LogEntry { line: "Record 2 ERROR".into(), level: LogLevel::Error },
        ],
        metadata: Default::default(),
    };

    correlate_log(&mut entries, &log);
    assert!(entries[0].log_level.is_none());
    assert!(matches!(entries[1].log_level, Some(LogLevel::Error)));
}

#[test]
fn correlates_warning_to_entries() {
    let mut entries = vec![
        TapEntry {
            length: 10,
            kind: TapDataKind::Raw(vec![1, 2]),
            log_level: None,
            detected_format: DetectedFormat::Raw,
        },
        TapEntry {
            length: 10,
            kind: TapDataKind::Raw(vec![3, 4]),
            log_level: None,
            detected_format: DetectedFormat::Raw,
        },
    ];

    let log = LogData {
        entries: vec![LogEntry { line: "record 2 warning".into(), level: LogLevel::Warning }],
        metadata: Default::default(),
    };

    correlate_log(&mut entries, &log);
    assert!(entries[1].log_level.is_some());
}

#[test]
fn classifies_levels() {
    let content = "All good\nWARNING: slow block\nERROR reading\nSKIP block\nBAD checksum\nUnknown";
    let data = parse_log(content);
    assert_eq!(data.entries.len(), 6);
    assert!(matches!(data.entries[0].level, LogLevel::Info));
    assert!(matches!(data.entries[1].level, LogLevel::Warning));
    assert!(matches!(data.entries[2].level, LogLevel::Error));
    assert!(matches!(data.entries[3].level, LogLevel::Warning));
    assert!(matches!(data.entries[4].level, LogLevel::Error));
    assert!(matches!(data.entries[5].level, LogLevel::Info));
}

#[test]
fn parses_metadata_from_log() {
    let data = parse_log("Tracks = 40\nDensity = SD\nBlocks read = 512\nAll good");
    assert_eq!(data.metadata.get("Tracks").unwrap(), "40");
    assert_eq!(data.metadata.get("Density").unwrap(), "SD");
    assert_eq!(data.metadata.get("Blocks read").unwrap(), "512");
    assert_eq!(data.entries.len(), 4);
}

#[test]
fn record_numbers_come_from_keyed_text() {
    assert_eq!(find_record_index("Record 12 processed"), Some(12));
    assert_eq!(find_record_index("skipped over 3 items"), Some(3));
    assert_eq!(find_record_index("BLOCK #7"), Some(7));
    assert_eq!(find_record_index("no number here"), None);
    assert_eq!(find_record_index("record without digits"), None);
}

#[test]
fn errors_are_never_downgraded() {
    let mut entries = vec![TapEntry {
        length: 1,
        kind: TapDataKind::Raw(vec![]),
        log_level: None,
        detected_format: DetectedFormat::Raw,
    }];
    let log = LogData {
        entries: vec![
            LogEntry { line: "record 1 ERROR".into(), level: LogLevel::Error },
            LogEntry { line: "record 1 WARNING".into(), level: LogLevel::Warning },
        ],
        metadata: Default::default(),
    };
    correlate_log(&mut entries, &log);
    assert!(matches!(entries[0].log_level, Some(LogLevel::Error)));
}
