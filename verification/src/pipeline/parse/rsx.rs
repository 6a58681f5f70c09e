//! RSX-style directory block decoding: a fixed header holding one
//! Rad50-encoded name, a status word, a UIC pair and a protection word.
use vstd::prelude::*;

use crate::pipeline::block::TapeBlock;
use crate::pipeline::file::Uic;
use crate::pipeline::parse::{decode_rad50_word, spec_rad50_word};
use crate::utils::bytes::{le16_at, read_le16};

verus! {

/// One decoded RSX directory header.
#[derive(Debug, Clone, PartialEq, Eq)]
pub struct RsxBlockInfo {
    pub name: String,
    pub uic: Uic,
    pub protection: u16,
    pub is_directory: bool,
}

/// Mathematical model of a decoded RSX header.
pub struct RsxBlockInfoV {
    pub name: Seq<char>,
    pub uic: Uic,
    pub protection: u16,
    pub is_directory: bool,
}

impl View for RsxBlockInfo {
    type V = RsxBlockInfoV;

    open spec fn view(&self) -> RsxBlockInfoV {
        RsxBlockInfoV {
            name: self.name@,
            uic: self.uic,
            protection: self.protection,
            is_directory: self.is_directory,
        }
    }
}

/// Whether bytes form a decodable RSX header: at least 16 bytes starting
/// with the marker word 0x31.
pub open spec fn rsx_block_valid(d: Seq<u8>) -> bool {
    &&& d.len() >= 16
    &&& d[0] == 0x31
    &&& d[1] == 0
}

/// The model decoded from a well-formed RSX header: three consecutive
/// Rad50 words at offset 2 concatenate into the name; the status word at
/// offset 8 marks a directory by its top bit; the UIC pair is at offset
/// 10 and the protection word at offset 14.
pub open spec fn spec_parse_rsx(d: Seq<u8>) -> RsxBlockInfoV {
    RsxBlockInfoV {
        name: spec_rad50_word(le16_at(d, 2)) + spec_rad50_word(le16_at(d, 4)) + spec_rad50_word(
            le16_at(d, 6),
        ),
        uic: Uic { group: le16_at(d, 10), member: le16_at(d, 12) },
        protection: le16_at(d, 14),
        is_directory: le16_at(d, 8) >= 0x8000,
    }
}

/// Decodes an RSX directory block.
pub fn parse_block(block: &TapeBlock) -> (r: Option<RsxBlockInfo>)
    ensures
        match r {
            Some(i) => rsx_block_valid(block@.raw) && i@ == spec_parse_rsx(block@.raw),
            None => !rsx_block_valid(block@.raw),
        },
{
    let data = block.raw.as_slice();
    let n: usize = data.len();
    if n < 16 {
        return None;
    }
    if data[0] != 0x31 || data[1] != 0x00 {
        return None;
    }

    let mut name = decode_rad50_word(read_le16(data, 2));
    let w2 = decode_rad50_word(read_le16(data, 4));
    let w3 = decode_rad50_word(read_le16(data, 6));
    name.append(w2.as_str());
    name.append(w3.as_str());

    let status: u16 = read_le16(data, 8);
    Some(RsxBlockInfo {
        name,
        uic: Uic { group: read_le16(data, 10), member: read_le16(data, 12) },
        protection: read_le16(data, 14),
        is_directory: status >= 0x8000,
    })
}

} // verus!
