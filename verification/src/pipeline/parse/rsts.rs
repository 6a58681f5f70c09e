//! RSTS-style directory block decoding: a scan of 32-byte entries with
//! all-zero entries skipped and no end marker.
use vstd::prelude::*;

use crate::pipeline::block::TapeBlock;
use crate::pipeline::file::Uic;
use crate::pipeline::parse::{decode_rad50_word, spec_rad50_word};
use crate::utils::bytes::{le16_at, read_le16};

verus! {

/// One decoded RSTS directory entry.
#[derive(Debug, Clone, PartialEq, Eq)]
pub struct RstsEntry {
    pub name: String,
    pub owner_uic: Uic,
    pub blocks: u16,
    pub status: u16,
}

/// Mathematical model of a decoded RSTS entry.
pub struct RstsEntryV {
    pub name: Seq<char>,
    pub owner_uic: Uic,
    pub blocks: u16,
    pub status: u16,
}

impl View for RstsEntry {
    type V = RstsEntryV;

    open spec fn view(&self) -> RstsEntryV {
        RstsEntryV {
            name: self.name@,
            owner_uic: self.owner_uic,
            blocks: self.blocks,
            status: self.status,
        }
    }
}

/// The decoded entries of an RSTS directory block.
#[derive(Debug, Clone, PartialEq, Eq)]
pub struct RstsBlockInfo {
    pub entries: Vec<RstsEntry>,
}

/// Mathematical model of a decoded RSTS block.
pub struct RstsBlockInfoV {
    pub entries: Seq<RstsEntryV>,
}

impl View for RstsBlockInfo {
    type V = RstsBlockInfoV;

    open spec fn view(&self) -> RstsBlockInfoV {
        RstsBlockInfoV { entries: self.entries@.map_values(|e: RstsEntry| e@) }
    }
}

/// Whether bytes form a decodable RSTS directory block: at least 32
/// bytes.
pub open spec fn rsts_block_valid(d: Seq<u8>) -> bool {
    d.len() >= 32
}

/// The entries decoded from offset `off` on, one per 32-byte span while
/// at least 16 bytes remain: a status word, two Rad50 name words, a UIC
/// pair and a block count; an entry whose status and name words are all
/// zero is skipped.
pub open spec fn rsts_entries_from(d: Seq<u8>, off: int) -> Seq<RstsEntryV>
    decreases d.len() + 32 - off,
{
    if off < 0 || d.len() - off < 16 {
        Seq::empty()
    } else {
        let status = le16_at(d, off);
        let n1 = le16_at(d, off + 2);
        let n2 = le16_at(d, off + 4);
        if status == 0 && n1 == 0 && n2 == 0 {
            rsts_entries_from(d, off + 32)
        } else {
            seq![
                RstsEntryV {
                    name: spec_rad50_word(n1) + spec_rad50_word(n2),
                    owner_uic: Uic { group: le16_at(d, off + 6), member: le16_at(d, off + 8) },
                    blocks: le16_at(d, off + 10),
                    status: status,
                },
            ] + rsts_entries_from(d, off + 32)
        }
    }
}

/// The model decoded from a well-formed RSTS block.
pub open spec fn spec_parse_rsts(d: Seq<u8>) -> RstsBlockInfoV {
    RstsBlockInfoV { entries: rsts_entries_from(d, 0) }
}

/// Decodes an RSTS directory block.
pub fn parse_block(block: &TapeBlock) -> (r: Option<RstsBlockInfo>)
    ensures
        match r {
            Some(i) => rsts_block_valid(block@.raw) && i@ == spec_parse_rsts(block@.raw),
            None => !rsts_block_valid(block@.raw),
        },
{
    let data = block.raw.as_slice();
    let n: usize = data.len();
    if n < 32 {
        return None;
    }

    let mut entries: Vec<RstsEntry> = Vec::new();
    let mut offset: usize = 0;

    while n - offset >= 16
        invariant
            offset <= n,
            n == data@.len(),
            rsts_entries_from(data@, 0) == entries@.map_values(|e: RstsEntry| e@)
                + rsts_entries_from(data@, offset as int),
        decreases n - offset,
    {
        let ghost prev = entries@;
        let ghost off0 = offset as int;
        let status: u16 = read_le16(data, offset);
        let name_word1: u16 = read_le16(data, offset + 2);
        let name_word2: u16 = read_le16(data, offset + 4);

        if !(status == 0 && name_word1 == 0 && name_word2 == 0) {
            let mut name = decode_rad50_word(name_word1);
            let w2 = decode_rad50_word(name_word2);
            name.append(w2.as_str());
            let entry = RstsEntry {
                name,
                owner_uic: Uic {
                    group: read_le16(data, offset + 6),
                    member: read_le16(data, offset + 8),
                },
                blocks: read_le16(data, offset + 10),
                status,
            };
            let ghost ev = entry@;
            entries.push(entry);
            proof {
                assert(entries@.map_values(|e: RstsEntry| e@) =~= prev.map_values(
                    |e: RstsEntry| e@,
                ).push(ev));
            }
        }
        if n - offset >= 32 {
            offset = offset + 32;
        } else {
            offset = n;
        }
        proof {
            if n - off0 < 32 {
                assert(rsts_entries_from(data@, off0 + 32) =~= Seq::<RstsEntryV>::empty());
                assert(rsts_entries_from(data@, offset as int) =~= Seq::<RstsEntryV>::empty());
            }
            assert(rsts_entries_from(data@, 0) =~= entries@.map_values(|e: RstsEntry| e@)
                + rsts_entries_from(data@, offset as int));
        }
    }

    Some(RstsBlockInfo { entries })
}

} // verus!
