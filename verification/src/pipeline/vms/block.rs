//! Parsing of the save-set record blocks found inside classified images:
//! file headers, extensions, idents and data fragments.
use vstd::prelude::*;

use crate::pipeline::file::Uic;
use crate::utils::bytes::{
    bytes_to_chars, copy_range, le16_at, le32_at, le64_at, read_le16, read_le32, read_le64,
    string_from_bytes,
};

verus! {

/// A decoded file-header record.
#[derive(Debug, Clone, PartialEq, Eq)]
pub struct Fh2Record {
    pub file_name: String,
    pub file_type: String,
    pub version: u16,
    pub uic: Uic,
    pub record_format: u8,
    pub record_attributes: u8,
    pub block_count: u32,
}

/// Mathematical model of a decoded file-header record.
pub struct Fh2RecordV {
    pub file_name: Seq<char>,
    pub file_type: Seq<char>,
    pub version: u16,
    pub uic: Uic,
    pub record_format: u8,
    pub record_attributes: u8,
    pub block_count: u32,
}

impl View for Fh2Record {
    type V = Fh2RecordV;

    open spec fn view(&self) -> Fh2RecordV {
        Fh2RecordV {
            file_name: self.file_name@,
            file_type: self.file_type@,
            version: self.version,
            uic: self.uic,
            record_format: self.record_format,
            record_attributes: self.record_attributes,
            block_count: self.block_count,
        }
    }
}

/// A decoded extension record.
#[derive(Debug, Clone, Copy, PartialEq, Eq, Structural)]
pub struct Xh2Record {
    pub backup_flags: u16,
    pub journal_flags: u16,
    pub high_precision_time: u64,
}

/// A decoded ident record.
#[derive(Debug, Clone, Copy, PartialEq, Eq, Structural)]
pub struct Xh3Record {
    pub file_id: u32,
    pub sequence_number: u16,
}

/// A decoded data fragment: its virtual block number and payload.
#[derive(Debug, Clone, PartialEq, Eq)]
pub struct VbnRecord {
    pub vbn: u32,
    pub payload: Vec<u8>,
}

/// Mathematical model of a data fragment.
pub struct VbnRecordV {
    pub vbn: u32,
    pub payload: Seq<u8>,
}

impl View for VbnRecord {
    type V = VbnRecordV;

    open spec fn view(&self) -> VbnRecordV {
        VbnRecordV { vbn: self.vbn, payload: self.payload@ }
    }
}

/// The kind of one save-set record block.
#[derive(Debug, Clone, PartialEq, Eq)]
pub enum VmsBlockKind {
    FileHeader(Fh2Record),
    Extension(Xh2Record),
    Ident(Xh3Record),
    FileData(VbnRecord),
    Unknown,
}

/// Mathematical model of a record block's kind.
pub enum VmsBlockKindV {
    FileHeader(Fh2RecordV),
    Extension(Xh2Record),
    Ident(Xh3Record),
    FileData(VbnRecordV),
    Unknown,
}

impl View for VmsBlockKind {
    type V = VmsBlockKindV;

    open spec fn view(&self) -> VmsBlockKindV {
        match self {
            VmsBlockKind::FileHeader(f) => VmsBlockKindV::FileHeader(f@),
            VmsBlockKind::Extension(x) => VmsBlockKindV::Extension(*x),
            VmsBlockKind::Ident(x) => VmsBlockKindV::Ident(*x),
            VmsBlockKind::FileData(v) => VmsBlockKindV::FileData(v@),
            VmsBlockKind::Unknown => VmsBlockKindV::Unknown,
        }
    }
}

/// One save-set record block with its decoded kind.
#[derive(Debug, Clone, PartialEq, Eq)]
pub struct VmsBlock {
    pub index: u32,
    pub raw: Vec<u8>,
    pub kind: VmsBlockKind,
}

/// The kind decoded from one record block's bytes, by its leading code
/// byte: 0xC0 a file header, 0xC1 an extension, 0xC2 an ident, 0xC4 a
/// data fragment; too-short or unrecognised blocks are unknown.
pub open spec fn spec_parse_vms_block(d: Seq<u8>) -> VmsBlockKindV {
    if d.len() < 8 {
        VmsBlockKindV::Unknown
    } else if d[0] == 0xC0 {
        if d.len() < 32 || 10 + d[8] + d[9] > d.len() {
            VmsBlockKindV::Unknown
        } else {
            VmsBlockKindV::FileHeader(spec_parse_fh2(d))
        }
    } else if d[0] == 0xC1 {
        if d.len() < 16 {
            VmsBlockKindV::Unknown
        } else {
            VmsBlockKindV::Extension(
                Xh2Record {
                    backup_flags: le16_at(d, 4),
                    journal_flags: le16_at(d, 6),
                    high_precision_time: le64_at(d, 8),
                },
            )
        }
    } else if d[0] == 0xC2 {
        if d.len() < 12 {
            VmsBlockKindV::Unknown
        } else {
            VmsBlockKindV::Ident(
                Xh3Record { file_id: le32_at(d, 4), sequence_number: le16_at(d, 8) },
            )
        }
    } else if d[0] == 0xC4 {
        VmsBlockKindV::FileData(
            VbnRecordV { vbn: le32_at(d, 4), payload: d.skip(8) },
        )
    } else {
        VmsBlockKindV::Unknown
    }
}

/// The file header decoded from a 0xC0 block: a length-prefixed name and
/// type at offset 8, the version word at 4, the UIC pair at 12, record
/// format and attribute bytes at 16, and the block count at 20.
pub open spec fn spec_parse_fh2(d: Seq<u8>) -> Fh2RecordV {
    let nl = d[8] as int;
    let tl = d[9] as int;
    Fh2RecordV {
        file_name: bytes_to_chars(d.subrange(10, 10 + nl)),
        file_type: bytes_to_chars(d.subrange(10 + nl, 10 + nl + tl)),
        version: le16_at(d, 4),
        uic: Uic { group: le16_at(d, 12), member: le16_at(d, 14) },
        record_format: d[16],
        record_attributes: d[17],
        block_count: le32_at(d, 20),
    }
}

fn parse_fh2(raw: &[u8]) -> (r: VmsBlockKind)
    requires
        raw@.len() >= 8,
        raw@[0] == 0xC0,
    ensures
        r@ == spec_parse_vms_block(raw@),
{
    let n: usize = raw.len();
    if n < 32 {
        return VmsBlockKind::Unknown;
    }

    let name_len: usize = raw[8] as usize;
    let type_len: usize = raw[9] as usize;
    if 10 + name_len + type_len > n {
        return VmsBlockKind::Unknown;
    }

    let name_bytes = copy_range(raw, 10, 10 + name_len);
    let type_bytes = copy_range(raw, 10 + name_len, 10 + name_len + type_len);

    VmsBlockKind::FileHeader(
        Fh2Record {
            file_name: string_from_bytes(name_bytes.as_slice()),
            file_type: string_from_bytes(type_bytes.as_slice()),
            version: read_le16(raw, 4),
            uic: Uic { group: read_le16(raw, 12), member: read_le16(raw, 14) },
            record_format: raw[16],
            record_attributes: raw[17],
            block_count: read_le32(raw, 20),
        },
    )
}

fn parse_xh2(raw: &[u8]) -> (r: VmsBlockKind)
    requires
        raw@.len() >= 8,
        raw@[0] == 0xC1,
    ensures
        r@ == spec_parse_vms_block(raw@),
{
    let n: usize = raw.len();
    if n < 16 {
        return VmsBlockKind::Unknown;
    }
    VmsBlockKind::Extension(
        Xh2Record {
            backup_flags: read_le16(raw, 4),
            journal_flags: read_le16(raw, 6),
            high_precision_time: read_le64(raw, 8),
        },
    )
}

fn parse_xh3(raw: &[u8]) -> (r: VmsBlockKind)
    requires
        raw@.len() >= 8,
        raw@[0] == 0xC2,
    ensures
        r@ == spec_parse_vms_block(raw@),
{
    let n: usize = raw.len();
    if n < 12 {
        return VmsBlockKind::Unknown;
    }
    VmsBlockKind::Ident(
        Xh3Record { file_id: read_le32(raw, 4), sequence_number: read_le16(raw, 8) },
    )
}

fn parse_vbn(raw: &[u8]) -> (r: VmsBlockKind)
    requires
        raw@.len() >= 8,
        raw@[0] == 0xC4,
    ensures
        r@ == spec_parse_vms_block(raw@),
{
    let n: usize = raw.len();
    let payload = copy_range(raw, 8, n);
    proof {
        assert(payload@ =~= raw@.skip(8));
    }
    VmsBlockKind::FileData(VbnRecord { vbn: read_le32(raw, 4), payload })
}

/// Decodes the kind of one save-set record block.
pub fn parse_vms_block(raw: &[u8]) -> (r: VmsBlockKind)
    ensures
        r@ == spec_parse_vms_block(raw@),
{
    let n: usize = raw.len();
    if n < 8 {
        return VmsBlockKind::Unknown;
    }

    let code: u8 = raw[0];
    match code {
        0xC0 => parse_fh2(raw),
        0xC1 => parse_xh2(raw),
        0xC2 => parse_xh3(raw),
        0xC4 => parse_vbn(raw),
        _ => VmsBlockKind::Unknown,
    }
}

/// Decodes one record block, keeping its bytes and index; blocks whose
/// kind is unknown yield nothing.
pub fn classify_vms_block(raw: &[u8], index: u32) -> (r: Option<VmsBlock>)
    ensures
        match r {
            Some(b) => {
                &&& raw@.len() >= 8
                &&& !(spec_parse_vms_block(raw@) is Unknown)
                &&& b.index == index
                &&& b.raw@ == raw@
                &&& b.kind@ == spec_parse_vms_block(raw@)
            },
            None => raw@.len() < 8 || spec_parse_vms_block(raw@) is Unknown,
        },
{
    let n: usize = raw.len();
    if n < 8 {
        return None;
    }
    let kind = parse_vms_block(raw);
    if matches!(kind, VmsBlockKind::Unknown) {
        return None;
    }
    let raw_copy = copy_range(raw, 0, n);
    proof {
        assert(raw_copy@ =~= raw@);
    }
    Some(VmsBlock { index, raw: raw_copy, kind })
}

} // verus!
