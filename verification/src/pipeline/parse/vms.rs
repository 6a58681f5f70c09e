//! Save-set file-header metadata decoding, with timestamp rendering.
use vstd::prelude::*;

use crate::pipeline::block::TapeBlock;
use crate::pipeline::file::{FileId, Uic, VmsFileMetadata, VmsFileMetadataV};
use crate::utils::bytes::{le16_at, le64_at, read_le16, read_le64};
use crate::utils::fmt::{dec_digits, push_decimal};

verus! {

/// The text chrono renders for a UTC timestamp of the given seconds
/// since the Unix epoch, or nothing when the value is out of range.
pub uninterp spec fn utc_time_text(secs: i64) -> Option<Seq<char>>;

/// Relies on chrono's `DateTime::<Utc>::from_timestamp`, which returns
/// `None` exactly on out-of-range seconds, and on its `format` with a
/// fixed date-time pattern: the rendered text is a function of the
/// seconds value alone.
#[verifier::external_body]
fn format_utc_seconds(secs: i64) -> (r: Option<String>)
    ensures
        match r {
            Some(s) => utc_time_text(secs) == Some(s@),
            None => utc_time_text(secs) is None,
        },
{
    match chrono::DateTime::<chrono::Utc>::from_timestamp(secs, 0) {
        Some(dt) => Some(dt.format("%Y-%m-%d %H:%M:%S").to_string()),
        None => None,
    }
}

/// The offset from the save-set timestamp epoch to the Unix epoch, in
/// seconds.
pub const VMS_TO_UNIX: i64 = -3_506_716_800;

/// The Unix seconds a non-zero save-set timestamp denotes: 100 ns ticks
/// become seconds, shifted by the epoch offset.
pub open spec fn vms_unix_seconds(qw: u64) -> int {
    qw as int / 10_000_000 + VMS_TO_UNIX
}

/// The rendered text of a save-set timestamp: zero means no timestamp;
/// anything else converts to Unix seconds and is rendered as UTC.
pub open spec fn spec_vms_time(qw: u64) -> Option<Seq<char>> {
    if qw == 0 {
        None
    } else {
        utc_time_text(vms_unix_seconds(qw) as i64)
    }
}

/// Renders a 64-bit save-set timestamp (100 ns ticks since the epoch of
/// 1858-11-17) as a UTC date-time text; zero yields nothing.
pub fn decode_vms_time(qw: u64) -> (r: Option<String>)
    ensures
        crate::pipeline::file::opt_str_view(r) == spec_vms_time(qw),
{
    if qw == 0 {
        return None;
    }
    let secs: u64 = qw / 10_000_000;
    let unix: i64 = (secs as i64) + VMS_TO_UNIX;
    format_utc_seconds(unix)
}

/// The display label of a file-organisation code: 1, 2 and 3 are the
/// known organisations, anything else is rendered with its number.
pub open spec fn spec_decode_filetype(code: u16) -> Seq<char> {
    if code == 1 {
        "Sequential"@
    } else if code == 2 {
        "Relative"@
    } else if code == 3 {
        "Indexed"@
    } else {
        "Unknown("@ + dec_digits(code as nat) + ")"@
    }
}

fn decode_filetype(code: u16) -> (r: String)
    ensures
        r@ == spec_decode_filetype(code),
{
    match code {
        1 => String::from_str("Sequential"),
        2 => String::from_str("Relative"),
        3 => String::from_str("Indexed"),
        _ => {
            let mut out = String::from_str("Unknown(");
            push_decimal(&mut out, code as u64);
            out.append(")");
            proof {
                assert(out@ =~= spec_decode_filetype(code));
            }
            out
        },
    }
}

/// Whether bytes form a decodable save-set file-header block: at least
/// 64 bytes starting with the header identifier word 2.
pub open spec fn vms_fh2_valid(d: Seq<u8>) -> bool {
    &&& d.len() >= 64
    &&& d[0] == 2
    &&& d[1] == 0
}

/// The metadata decoded from a well-formed header block: the file id
/// triple at offset 12, revision and sequence words, the UIC pair at
/// offset 22, protection at 26, record format and attribute bytes at 28,
/// record length at 30, organisation code at 32, backup flags at 34, and
/// three 64-bit timestamps at offsets 40, 48 and 56.
pub open spec fn spec_parse_vms_fh2(d: Seq<u8>) -> VmsFileMetadataV {
    VmsFileMetadataV {
        file_id: FileId { num: le16_at(d, 12), seq: le16_at(d, 14), rel: le16_at(d, 16) },
        rev: le16_at(d, 18),
        seq: le16_at(d, 20),
        owner_uic: Uic { group: le16_at(d, 22), member: le16_at(d, 24) },
        protection: le16_at(d, 26),
        record_format: d[28],
        record_attributes: d[29],
        record_length: le16_at(d, 30),
        file_type: spec_decode_filetype(le16_at(d, 32)),
        backup_flags: le16_at(d, 34),
        creation_time: spec_vms_time(le64_at(d, 40)),
        revision_time: spec_vms_time(le64_at(d, 48)),
        expiration_time: spec_vms_time(le64_at(d, 56)),
    }
}

/// Extracts file metadata from a save-set header block.
pub fn parse_vms_fh2(block: &TapeBlock) -> (r: Option<VmsFileMetadata>)
    ensures
        match r {
            Some(m) => vms_fh2_valid(block@.raw) && m@ == spec_parse_vms_fh2(block@.raw),
            None => !vms_fh2_valid(block@.raw),
        },
{
    let d = block.raw.as_slice();
    let n: usize = d.len();
    if n < 64 {
        return None;
    }
    if d[0] != 0x02 || d[1] != 0x00 {
        return None;
    }

    Some(VmsFileMetadata {
        file_id: FileId { num: read_le16(d, 12), seq: read_le16(d, 14), rel: read_le16(d, 16) },
        rev: read_le16(d, 18),
        seq: read_le16(d, 20),
        owner_uic: Uic { group: read_le16(d, 22), member: read_le16(d, 24) },
        protection: read_le16(d, 26),
        record_format: d[28],
        record_attributes: d[29],
        record_length: read_le16(d, 30),
        file_type: decode_filetype(read_le16(d, 32)),
        backup_flags: read_le16(d, 34),
        creation_time: decode_vms_time(read_le64(d, 40)),
        revision_time: decode_vms_time(read_le64(d, 48)),
        expiration_time: decode_vms_time(read_le64(d, 56)),
    })
}

} // verus!
