//! The long-form save-set file header carried by 128-byte header blocks.
use vstd::prelude::*;

use crate::pipeline::file::Uic;
use crate::utils::bytes::{bytes_to_chars, copy_range, le16_at, read_le16, string_from_bytes};

verus! {

/// A decoded long-form file header.
#[derive(Debug, Clone, PartialEq, Eq)]
pub struct VmsFileHeader {
    pub filename: String,
    pub version: u16,
    pub uic: Uic,
    pub record_format: u8,
    pub record_attributes: u16,
    pub block_count: u32,
}

/// Mathematical model of a decoded long-form header.
pub struct VmsFileHeaderV {
    pub filename: Seq<char>,
    pub version: u16,
    pub uic: Uic,
    pub record_format: u8,
    pub record_attributes: u16,
    pub block_count: u32,
}

impl View for VmsFileHeader {
    type V = VmsFileHeaderV;

    open spec fn view(&self) -> VmsFileHeaderV {
        VmsFileHeaderV {
            filename: self.filename@,
            version: self.version,
            uic: self.uic,
            record_format: self.record_format,
            record_attributes: self.record_attributes,
            block_count: self.block_count,
        }
    }
}

/// Whether bytes form a decodable long-form header: at least 128 bytes,
/// the length-prefixed name and extension in bounds, and their bytes
/// plain ASCII.
pub open spec fn long_header_valid(d: Seq<u8>) -> bool {
    &&& d.len() >= 128
    &&& 34 + d[32] + d[33] <= d.len()
    &&& forall|i: int| 34 <= i < 34 + d[32] + d[33] ==> #[trigger] d[i] < 128
}

/// The name a well-formed header carries: the name bytes, then a dot and
/// the extension bytes when the extension is non-empty.
pub open spec fn spec_long_header_name(d: Seq<u8>) -> Seq<char> {
    let nl = d[32] as int;
    let el = d[33] as int;
    if el > 0 {
        bytes_to_chars(d.subrange(34, 34 + nl)) + seq!['.'] + bytes_to_chars(
            d.subrange(34 + nl, 34 + nl + el),
        )
    } else {
        bytes_to_chars(d.subrange(34, 34 + nl))
    }
}

/// The model decoded from a well-formed long-form header: the version
/// word at offset 64, record format byte at 80 with its attribute word
/// at 81, the UIC pair at 90, and the block count word at 108.
pub open spec fn spec_parse_long_header(d: Seq<u8>) -> VmsFileHeaderV {
    VmsFileHeaderV {
        filename: spec_long_header_name(d),
        version: le16_at(d, 64),
        uic: Uic { group: le16_at(d, 90), member: le16_at(d, 92) },
        record_format: d[80],
        record_attributes: le16_at(d, 81),
        block_count: le16_at(d, 108) as u32,
    }
}

impl VmsFileHeader {
    /// Decodes a long-form file header; headers that are too short, with
    /// name bytes out of bounds, or with non-ASCII name bytes yield
    /// nothing.
    #[verifier::loop_isolation(false)]
    pub fn parse(raw: &[u8]) -> (r: Option<VmsFileHeader>)
        ensures
            match r {
                Some(h) => long_header_valid(raw@) && h@ == spec_parse_long_header(raw@),
                None => !long_header_valid(raw@),
            },
    {
        let n: usize = raw.len();
        if n < 128 {
            return None;
        }

        let name_len: usize = raw[32] as usize;
        let ext_len: usize = raw[33] as usize;
        if 34 + name_len + ext_len > n {
            return None;
        }

        let mut i: usize = 34;
        while i < 34 + name_len + ext_len
            invariant
                34 <= i <= 34 + name_len + ext_len,
                forall|j: int| 34 <= j < i ==> #[trigger] raw@[j] < 128,
            decreases 34 + name_len + ext_len - i,
        {
            if raw[i] >= 128 {
                return None;
            }
            i = i + 1;
        }

        let name_bytes = copy_range(raw, 34, 34 + name_len);
        let mut name = string_from_bytes(name_bytes.as_slice());
        if ext_len > 0 {
            let ext_bytes = copy_range(raw, 34 + name_len, 34 + name_len + ext_len);
            name.append(".");
            name.append(string_from_bytes(ext_bytes.as_slice()).as_str());
            proof {
                reveal_strlit(".");
                assert(name@ =~= spec_long_header_name(raw@));
            }
        }

        Some(
            VmsFileHeader {
                filename: name,
                version: read_le16(raw, 64),
                uic: Uic { group: read_le16(raw, 90), member: read_le16(raw, 92) },
                record_format: raw[80],
                record_attributes: read_le16(raw, 81),
                block_count: read_le16(raw, 108) as u32,
            },
        )
    }
}

} // verus!
