//! VMS BACKUP Phase-1 block and record decoding.
//!
//! Layouts are little-endian throughout; each parser's contract states the
//! exact bytes every decoded field comes from.
use vstd::prelude::*;

use crate::utils::bytes::{
    bytes_to_chars, copy_range, le16_at, le32_at, le64_at, read_le16, read_le32, read_le64,
    string_from_bytes,
};
use crate::utils::fmt::push_decimal;
use crate::TapeError;

verus! {

/// Parsed view of a VMS BACKUP Phase-1 block header and payload.
#[derive(Debug, Clone, PartialEq, Eq)]
pub struct BackupBlock {
    pub block_size: u16,
    pub format_version: u8,
    pub phase: u8,
    pub sequence_number: u32,
    pub checksum: u16,
    pub payload: Vec<u8>,
}

/// Mathematical model of a decoded Phase-1 block.
pub struct BackupBlockV {
    pub block_size: u16,
    pub format_version: u8,
    pub phase: u8,
    pub sequence_number: u32,
    pub checksum: u16,
    pub payload: Seq<u8>,
}

impl View for BackupBlock {
    type V = BackupBlockV;

    open spec fn view(&self) -> BackupBlockV {
        BackupBlockV {
            block_size: self.block_size,
            format_version: self.format_version,
            phase: self.phase,
            sequence_number: self.sequence_number,
            checksum: self.checksum,
            payload: self.payload@,
        }
    }
}

/// RMS record format carried in a save-set file header.
#[derive(Debug, Clone, Copy, PartialEq, Eq, Structural)]
pub enum RecordFormat {
    Udf,
    Vfc,
    Var,
    Fix,
    Unknown(u8),
}

/// RMS attributes of a save-set file header.
#[derive(Debug, Clone, PartialEq, Eq, Structural)]
pub struct RmsAttributes {
    pub rfm: RecordFormat,
    pub rattr: u16,
    pub rattnr: u16,
    pub rattnl: u16,
}

/// Optional extended-header fields attached to a file header.
#[derive(Debug, Clone, PartialEq, Eq, Structural, Default)]
pub struct VmsExtendedHeader {
    pub backup_flags: Option<u16>,
    pub high_precision_timestamp: Option<u64>,
    pub acp_attributes: Option<u32>,
    pub journaling_flags: Option<u16>,
    pub file_id: Option<u32>,
    pub sequence_number: Option<u32>,
}

/// Decoded save-set file header (FH2 record).
#[derive(Debug, Clone, PartialEq, Eq)]
pub struct VmsFileHeader {
    pub file_name: String,
    pub file_type: String,
    pub version: u16,
    pub record_format: RecordFormat,
    pub record_attributes: u16,
    pub protection_mask: u16,
    pub creation_date: u64,
    pub revision_date: u64,
    pub file_size_high: u32,
    pub file_size_low: u32,
    pub owner_uic: u32,
    pub rms: RmsAttributes,
    pub extended: Option<VmsExtendedHeader>,
}

/// Mathematical model of a decoded file header.
pub struct VmsFileHeaderV {
    pub file_name: Seq<char>,
    pub file_type: Seq<char>,
    pub version: u16,
    pub record_format: RecordFormat,
    pub record_attributes: u16,
    pub protection_mask: u16,
    pub creation_date: u64,
    pub revision_date: u64,
    pub file_size_high: u32,
    pub file_size_low: u32,
    pub owner_uic: u32,
    pub rms: RmsAttributes,
    pub extended: Option<VmsExtendedHeader>,
}

impl View for VmsFileHeader {
    type V = VmsFileHeaderV;

    open spec fn view(&self) -> VmsFileHeaderV {
        VmsFileHeaderV {
            file_name: self.file_name@,
            file_type: self.file_type@,
            version: self.version,
            record_format: self.record_format,
            record_attributes: self.record_attributes,
            protection_mask: self.protection_mask,
            creation_date: self.creation_date,
            revision_date: self.revision_date,
            file_size_high: self.file_size_high,
            file_size_low: self.file_size_low,
            owner_uic: self.owner_uic,
            rms: self.rms,
            extended: self.extended,
        }
    }
}

/// The canonical `NAME` or `NAME.TYPE` label of a header.
pub open spec fn spec_full_name(h: VmsFileHeaderV) -> Seq<char> {
    if h.file_type.len() == 0 {
        h.file_name
    } else {
        h.file_name + seq!['.'] + h.file_type
    }
}

impl VmsFileHeader {
    /// `NAME` when the type is empty, else `NAME.TYPE`.
    pub fn full_name(&self) -> (r: String)
        ensures
            r@ == spec_full_name(self@),
    {
        if self.file_type.as_str().is_empty() {
            self.file_name.clone()
        } else {
            let mut out = self.file_name.clone();
            out.append(".");
            out.append(self.file_type.as_str());
            proof {
                reveal_strlit(".");
                assert(out@ =~= spec_full_name(self@));
            }
            out
        }
    }
}

/// A Phase-1 block is well-formed when it is long enough for the 10-byte
/// header, its declared size covers the header, fits in the buffer, and
/// its phase byte is 1.
pub open spec fn backup_block_valid(d: Seq<u8>) -> bool {
    &&& d.len() >= 10
    &&& le16_at(d, 0) >= 10
    &&& le16_at(d, 0) <= d.len()
    &&& d[3] == 1
}

/// The model of the block decoded from well-formed bytes.
pub open spec fn spec_backup_block(d: Seq<u8>) -> BackupBlockV {
    BackupBlockV {
        block_size: le16_at(d, 0),
        format_version: d[2],
        phase: d[3],
        sequence_number: le32_at(d, 4),
        checksum: le16_at(d, 8),
        payload: d.subrange(10, le16_at(d, 0) as int),
    }
}

/// Reads a Phase-1 VMS BACKUP block from raw bytes.
///
/// The layout is: 0..2 little-endian block size, 2 format version byte,
/// 3 phase identifier (must be 1), 4..8 little-endian sequence number,
/// 8..10 checksum field (not validated), 10..size payload.
pub fn read_backup_block(data: &[u8]) -> (r: Result<BackupBlock, TapeError>)
    ensures
        match r {
            Ok(b) => backup_block_valid(data@) && b@ == spec_backup_block(data@),
            Err(e) => {
                &&& !backup_block_valid(data@)
                &&& (e is UnsupportedFormat <==> (data@.len() >= 10 && 10 <= le16_at(data@, 0)
                    <= data@.len() && data@[3] != 1))
            },
        },
{
    let n: usize = data.len();
    if n < 10 {
        return Err(TapeError::Parse(String::from_str("buffer too small for VMS BACKUP header")));
    }

    let block_size: u16 = read_le16(data, 0);
    if block_size == 0 {
        return Err(TapeError::Parse(String::from_str("block size must be greater than zero")));
    }

    let block_size_usize: usize = block_size as usize;
    if block_size_usize > n {
        let mut msg = String::from_str("block size ");
        push_decimal(&mut msg, block_size as u64);
        msg.append(" exceeds available data ");
        push_decimal(&mut msg, n as u64);
        return Err(TapeError::Parse(msg));
    }
    if block_size_usize < 10 {
        return Err(TapeError::Parse(String::from_str("block size too small for header")));
    }

    let phase: u8 = data[3];
    if phase != 1 {
        let mut msg = String::from_str("unsupported phase ");
        push_decimal(&mut msg, phase as u64);
        msg.append(", expected Phase-1");
        return Err(TapeError::UnsupportedFormat(msg));
    }

    let payload: Vec<u8> = copy_range(data, 10, block_size_usize);

    Ok(BackupBlock {
        block_size,
        format_version: data[2],
        phase,
        sequence_number: read_le32(data, 4),
        checksum: read_le16(data, 8),
        payload,
    })
}

/// The record format that one code byte denotes: 0 undefined, 1 fixed,
/// 2 variable, 3 variable with fixed control.
pub open spec fn spec_record_format(code: u8) -> RecordFormat {
    if code == 0 {
        RecordFormat::Udf
    } else if code == 1 {
        RecordFormat::Fix
    } else if code == 2 {
        RecordFormat::Var
    } else if code == 3 {
        RecordFormat::Vfc
    } else {
        RecordFormat::Unknown(code)
    }
}

/// Maps a record-format code byte to its enumeration.
pub fn parse_record_format(code: u8) -> (r: RecordFormat)
    ensures
        r == spec_record_format(code),
{
    match code {
        0 => RecordFormat::Udf,
        1 => RecordFormat::Fix,
        2 => RecordFormat::Var,
        3 => RecordFormat::Vfc,
        other => RecordFormat::Unknown(other),
    }
}

/// The index of the last `.` byte in `s`, or -1 when there is none.
pub open spec fn last_dot(s: Seq<u8>) -> int
    decreases s.len(),
{
    if s.len() == 0 {
        -1
    } else if s.last() == 46 {
        s.len() - 1
    } else {
        last_dot(s.drop_last())
    }
}

/// The part of a name before its last dot (the whole name when no dot).
pub open spec fn name_base(s: Seq<u8>) -> Seq<u8> {
    if last_dot(s) < 0 {
        s
    } else {
        s.take(last_dot(s))
    }
}

/// The part of a name after its last dot (empty when no dot).
pub open spec fn name_ext(s: Seq<u8>) -> Seq<u8> {
    if last_dot(s) < 0 {
        Seq::empty()
    } else {
        s.skip(last_dot(s) + 1)
    }
}

proof fn lemma_last_dot_bounds(s: Seq<u8>)
    ensures
        -1 <= last_dot(s) < s.len(),
        last_dot(s) >= 0 ==> s[last_dot(s)] == 46,
        forall|j: int| last_dot(s) < j < s.len() ==> s[j] != 46,
    decreases s.len(),
{
    if s.len() > 0 && s.last() != 46 {
        lemma_last_dot_bounds(s.drop_last());
        assert forall|j: int| last_dot(s) < j < s.len() implies s[j] != 46 by {
            if j < s.len() - 1 {
                assert(s.drop_last()[j] == s[j]);
            }
        }
    }
}

/// Splits a file name on its last dot into base name and type.
#[verifier::loop_isolation(false)]
pub fn split_name_type(name: &[u8]) -> (r: (String, String))
    ensures
        r.0@ == bytes_to_chars(name_base(name@)),
        r.1@ == bytes_to_chars(name_ext(name@)),
{
    proof {
        lemma_last_dot_bounds(name@);
    }
    let n: usize = name.len();
    let mut i: usize = n;
    while i > 0
        invariant
            i <= n,
            forall|j: int| i <= j < n ==> name@[j] != 46,
        decreases i,
    {
        if name[i - 1] == 46 {
            proof {
                assert(last_dot(name@) == i - 1) by {
                    lemma_last_dot_bounds(name@);
                }
            }
            let base = copy_range(name, 0, i - 1);
            let ext = copy_range(name, i, n);
            return (string_from_bytes(base.as_slice()), string_from_bytes(ext.as_slice()));
        }
        i = i - 1;
    }
    assert(last_dot(name@) == -1) by {
        lemma_last_dot_bounds(name@);
    }
    let whole = copy_range(name, 0, n);
    assert(whole@ =~= name@);
    (string_from_bytes(whole.as_slice()), String::new())
}

/// Whether bytes form a well-formed FH2 file-header record.
pub open spec fn fh2_record_valid(d: Seq<u8>) -> bool {
    &&& d.len() > 0
    &&& d[0] == 2
    &&& d.len() >= 43
    &&& d.len() >= 43 + d[1]
}

/// The model of the file header decoded from well-formed FH2 bytes.
pub open spec fn spec_parse_fh2_record(d: Seq<u8>) -> VmsFileHeaderV {
    let nl = d[1] as int;
    let name = d.subrange(2, 2 + nl);
    let o = 2 + nl;
    VmsFileHeaderV {
        file_name: bytes_to_chars(name_base(name)),
        file_type: bytes_to_chars(name_ext(name)),
        version: le16_at(d, o),
        record_format: spec_record_format(d[o + 2]),
        record_attributes: le16_at(d, o + 3),
        protection_mask: le16_at(d, o + 5),
        creation_date: le64_at(d, o + 7),
        revision_date: le64_at(d, o + 15),
        file_size_high: le32_at(d, o + 23),
        file_size_low: le32_at(d, o + 27),
        owner_uic: le32_at(d, o + 31),
        rms: RmsAttributes {
            rfm: spec_record_format(d[o + 2]),
            rattr: le16_at(d, o + 35),
            rattnr: le16_at(d, o + 37),
            rattnl: le16_at(d, o + 39),
        },
        extended: None,
    }
}

/// Parses a VMS BACKUP FH2 file-header record.
///
/// Layout: 0 record code (0x02), 1 name length, then name bytes (split on
/// the last dot into base name and type); after the name: u16 version,
/// u8 record-format code, u16 record attributes, u16 protection mask,
/// u64 creation date, u64 revision date, u32 size high, u32 size low,
/// u32 owner UIC, and three u16 RMS fields.
pub fn parse_fh2_record(data: &[u8]) -> (r: Result<VmsFileHeader, TapeError>)
    ensures
        match r {
            Ok(h) => fh2_record_valid(data@) && h@ == spec_parse_fh2_record(data@),
            Err(e) => !fh2_record_valid(data@) && e is Parse,
        },
{
    let n: usize = data.len();
    if n == 0 || data[0] != 2 {
        return Err(TapeError::Parse(String::from_str("FH2 record code missing")));
    }
    if n < 43 {
        return Err(TapeError::Parse(String::from_str("FH2 record too short")));
    }

    let name_len: usize = data[1] as usize;
    if n < 43 + name_len {
        return Err(TapeError::Parse(String::from_str("FH2 record missing name bytes")));
    }

    let name = copy_range(data, 2, 2 + name_len);
    let (file_name, file_type) = split_name_type(name.as_slice());
    let o: usize = 2 + name_len;

    let record_format = parse_record_format(data[o + 2]);
    let rms = RmsAttributes {
        rfm: record_format,
        rattr: read_le16(data, o + 35),
        rattnr: read_le16(data, o + 37),
        rattnl: read_le16(data, o + 39),
    };

    Ok(VmsFileHeader {
        file_name,
        file_type,
        version: read_le16(data, o),
        record_format,
        record_attributes: read_le16(data, o + 3),
        protection_mask: read_le16(data, o + 5),
        creation_date: read_le64(data, o + 7),
        revision_date: read_le64(data, o + 15),
        file_size_high: read_le32(data, o + 23),
        file_size_low: read_le32(data, o + 27),
        owner_uic: read_le32(data, o + 31),
        rms,
        extended: None,
    })
}

/// Whether bytes form a well-formed XH2 extended-header record: after
/// the code byte, either the long shape (25 bytes or more) or the short
/// shape (13 bytes or more) must fit.
pub open spec fn xh2_record_valid(d: Seq<u8>) -> bool {
    &&& d.len() > 0
    &&& d[0] == 12
    &&& d.len() >= 13
}

/// The model of the extended header decoded from well-formed XH2 bytes.
/// The record comes in two observed shapes, told apart by total length:
/// the long shape holds flags, timestamp, ACP attributes, journaling
/// flags, file id and sequence number; the short shape holds only
/// flags, journaling flags and the timestamp.
pub open spec fn spec_parse_xh2_record(d: Seq<u8>) -> VmsExtendedHeader {
    if d.len() >= 25 {
        VmsExtendedHeader {
            backup_flags: Some(le16_at(d, 1)),
            high_precision_timestamp: Some(le64_at(d, 3)),
            acp_attributes: Some(le32_at(d, 11)),
            journaling_flags: Some(le16_at(d, 15)),
            file_id: Some(le32_at(d, 17)),
            sequence_number: Some(le32_at(d, 21)),
        }
    } else {
        VmsExtendedHeader {
            backup_flags: Some(le16_at(d, 1)),
            journaling_flags: Some(le16_at(d, 3)),
            high_precision_timestamp: Some(le64_at(d, 5)),
            acp_attributes: None,
            file_id: None,
            sequence_number: None,
        }
    }
}

/// Parses an XH2 extended-header record, after the code byte (0x0C).
/// A record of 25 bytes or more carries the long shape: u16 backup
/// flags, u64 high-precision timestamp, u32 ACP attributes, u16
/// journaling flags, u32 file id, u32 sequence number. A shorter record
/// of at least 13 bytes carries the short shape: u16 backup flags, u16
/// journaling flags, u64 high-precision timestamp.
pub fn parse_xh2_record(data: &[u8]) -> (r: Result<VmsExtendedHeader, TapeError>)
    ensures
        match r {
            Ok(x) => xh2_record_valid(data@) && x == spec_parse_xh2_record(data@),
            Err(e) => !xh2_record_valid(data@) && e is Parse,
        },
{
    let n: usize = data.len();
    if n == 0 || data[0] != 12 {
        return Err(TapeError::Parse(String::from_str("XH2 record code missing")));
    }
    if n < 13 {
        return Err(TapeError::Parse(String::from_str("XH2 record too short")));
    }
    if n >= 25 {
        Ok(VmsExtendedHeader {
            backup_flags: Some(read_le16(data, 1)),
            high_precision_timestamp: Some(read_le64(data, 3)),
            acp_attributes: Some(read_le32(data, 11)),
            journaling_flags: Some(read_le16(data, 15)),
            file_id: Some(read_le32(data, 17)),
            sequence_number: Some(read_le32(data, 21)),
        })
    } else {
        Ok(VmsExtendedHeader {
            backup_flags: Some(read_le16(data, 1)),
            journaling_flags: Some(read_le16(data, 3)),
            high_precision_timestamp: Some(read_le64(data, 5)),
            acp_attributes: None,
            file_id: None,
            sequence_number: None,
        })
    }
}

/// Whether bytes form a directory-path record.
pub open spec fn dir_record_valid(d: Seq<u8>) -> bool {
    &&& d.len() >= 2
    &&& d[0] == 4
    &&& d.len() >= 2 + d[1]
}

/// The path text carried by a well-formed directory record.
pub open spec fn spec_dir_record_path(d: Seq<u8>) -> Seq<char> {
    bytes_to_chars(d.subrange(2, 2 + d[1] as int))
}

/// Parses a directory record (code 0x04): a length-prefixed path string
/// that becomes the ambient directory for files finalised afterwards.
pub fn parse_directory_record(data: &[u8]) -> (r: Option<String>)
    ensures
        match r {
            Some(p) => dir_record_valid(data@) && p@ == spec_dir_record_path(data@),
            None => !dir_record_valid(data@),
        },
{
    let n: usize = data.len();
    if n == 0 || data[0] != 4 {
        return None;
    }
    if n < 2 {
        return None;
    }
    let len: usize = data[1] as usize;
    if n < 2 + len {
        return None;
    }
    let path = copy_range(data, 2, 2 + len);
    Some(string_from_bytes(path.as_slice()))
}

/// The letters granted by one protection nibble: R, W, E, D for bits
/// 3 down to 0.
pub open spec fn spec_rights(bits: int) -> Seq<char> {
    (if bits / 8 % 2 == 1 {
        seq!['R']
    } else {
        Seq::empty()
    }) + (if bits / 4 % 2 == 1 {
        seq!['W']
    } else {
        Seq::empty()
    }) + (if bits / 2 % 2 == 1 {
        seq!['E']
    } else {
        Seq::empty()
    }) + (if bits % 2 == 1 {
        seq!['D']
    } else {
        Seq::empty()
    })
}

/// One parenthesised group of rights.
pub open spec fn spec_rights_group(bits: int) -> Seq<char> {
    seq!['('] + spec_rights(bits) + seq![')']
}

/// The four groups of a protection mask, most significant nibble first
/// (system, owner, group, world), joined by commas.
pub open spec fn spec_format_protection(mask: u16) -> Seq<char> {
    spec_rights_group(mask as int / 0x1000 % 16) + seq![','] + spec_rights_group(
        mask as int / 0x100 % 16,
    ) + seq![','] + spec_rights_group(mask as int / 0x10 % 16) + seq![','] + spec_rights_group(
        mask as int % 16,
    )
}

fn push_rights_group(s: &mut String, bits: u16)
    requires
        bits < 16,
    ensures
        final(s)@ == old(s)@ + spec_rights_group(bits as int),
{
    s.append("(");
    if bits / 8 % 2 == 1 {
        s.append("R");
    }
    if bits / 4 % 2 == 1 {
        s.append("W");
    }
    if bits / 2 % 2 == 1 {
        s.append("E");
    }
    if bits % 2 == 1 {
        s.append("D");
    }
    s.append(")");
    proof {
        reveal_strlit("(");
        reveal_strlit(")");
        reveal_strlit("R");
        reveal_strlit("W");
        reveal_strlit("E");
        reveal_strlit("D");
        assert(final(s)@ =~= old(s)@ + spec_rights_group(bits as int));
    }
}

/// Formats a protection mask into four parenthesised groups, one per
/// nibble from most to least significant, each listing R, W, E, D for
/// the set bits.
pub fn format_protection(mask: u16) -> (r: String)
    ensures
        r@ == spec_format_protection(mask),
{
    let mut out = String::new();
    push_rights_group(&mut out, mask / 0x1000 % 16);
    out.append(",");
    push_rights_group(&mut out, mask / 0x100 % 16);
    out.append(",");
    push_rights_group(&mut out, mask / 0x10 % 16);
    out.append(",");
    push_rights_group(&mut out, mask % 16);
    proof {
        reveal_strlit(",");
        assert(out@ =~= spec_format_protection(mask));
    }
    out
}

/// The display label of a record format.
pub open spec fn spec_record_format_text(rfm: RecordFormat) -> Seq<char> {
    match rfm {
        RecordFormat::Udf => "UDF"@,
        RecordFormat::Vfc => "VFC"@,
        RecordFormat::Var => "VAR"@,
        RecordFormat::Fix => "FIX"@,
        RecordFormat::Unknown(_) => "UNKNOWN"@,
    }
}

/// Short display label for a record format.
pub fn record_format_text(rfm: &RecordFormat) -> (r: &'static str)
    ensures
        r@ == spec_record_format_text(*rfm),
{
    match rfm {
        RecordFormat::Udf => "UDF",
        RecordFormat::Vfc => "VFC",
        RecordFormat::Var => "VAR",
        RecordFormat::Fix => "FIX",
        RecordFormat::Unknown(_) => "UNKNOWN",
    }
}

} // verus!
