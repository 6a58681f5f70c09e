//! RT-11-style directory block decoding: a scan of 8-byte entries, with
//! an explicit end marker and skipped blank entries.
use vstd::prelude::*;

use crate::pipeline::block::TapeBlock;
use crate::pipeline::parse::{decode_rad50_word, spec_rad50_word};
use crate::utils::bytes::{le16_at, read_le16};

verus! {

/// One decoded RT-11 directory entry.
#[derive(Debug, Clone, PartialEq, Eq)]
pub struct Rt11Entry {
    pub name: String,
    pub ext: String,
    pub start_block: u16,
    pub length_blocks: u16,
}

/// Mathematical model of a decoded RT-11 entry.
pub struct Rt11EntryV {
    pub name: Seq<char>,
    pub ext: Seq<char>,
    pub start_block: u16,
    pub length_blocks: u16,
}

impl View for Rt11Entry {
    type V = Rt11EntryV;

    open spec fn view(&self) -> Rt11EntryV {
        Rt11EntryV {
            name: self.name@,
            ext: self.ext@,
            start_block: self.start_block,
            length_blocks: self.length_blocks,
        }
    }
}

/// The decoded entries of an RT-11 directory block.
#[derive(Debug, Clone, PartialEq, Eq)]
pub struct Rt11BlockInfo {
    pub entries: Vec<Rt11Entry>,
}

/// Mathematical model of a decoded RT-11 block.
pub struct Rt11BlockInfoV {
    pub entries: Seq<Rt11EntryV>,
}

impl View for Rt11BlockInfo {
    type V = Rt11BlockInfoV;

    open spec fn view(&self) -> Rt11BlockInfoV {
        Rt11BlockInfoV { entries: self.entries@.map_values(|e: Rt11Entry| e@) }
    }
}

/// Whether bytes form a decodable RT-11 directory block: exactly 512
/// bytes.
pub open spec fn rt11_block_valid(d: Seq<u8>) -> bool {
    d.len() == 512
}

/// The entries decoded from offset `off` on: each 8-byte entry holds a
/// Rad50 name word, a Rad50 extension word, a start block and a length
/// in blocks; name 0 with extension 1 ends the scan, and an all-zero
/// entry is skipped without ending it.
pub open spec fn rt11_entries_from(d: Seq<u8>, off: int) -> Seq<Rt11EntryV>
    decreases d.len() + 8 - off,
{
    if off < 0 || off + 8 > d.len() {
        Seq::empty()
    } else {
        let nw = le16_at(d, off);
        let ew = le16_at(d, off + 2);
        let st = le16_at(d, off + 4);
        let ln = le16_at(d, off + 6);
        if nw == 0 && ew == 1 {
            Seq::empty()
        } else if nw == 0 && ew == 0 && st == 0 && ln == 0 {
            rt11_entries_from(d, off + 8)
        } else {
            seq![
                Rt11EntryV {
                    name: spec_rad50_word(nw),
                    ext: spec_rad50_word(ew),
                    start_block: st,
                    length_blocks: ln,
                },
            ] + rt11_entries_from(d, off + 8)
        }
    }
}

/// The model decoded from a well-formed RT-11 block.
pub open spec fn spec_parse_rt11(d: Seq<u8>) -> Rt11BlockInfoV {
    Rt11BlockInfoV { entries: rt11_entries_from(d, 0) }
}

/// Decodes an RT-11 directory block.
pub fn parse_block(block: &TapeBlock) -> (r: Option<Rt11BlockInfo>)
    ensures
        match r {
            Some(i) => rt11_block_valid(block@.raw) && i@ == spec_parse_rt11(block@.raw),
            None => !rt11_block_valid(block@.raw),
        },
{
    let data = block.raw.as_slice();
    let n: usize = data.len();
    if n != 512 {
        return None;
    }

    let mut entries: Vec<Rt11Entry> = Vec::new();
    let mut offset: usize = 0;

    while n - offset >= 8
        invariant_except_break
            rt11_entries_from(data@, 0) == entries@.map_values(|e: Rt11Entry| e@)
                + rt11_entries_from(data@, offset as int),
        invariant
            offset <= n,
            n == data@.len(),
        ensures
            rt11_entries_from(data@, 0) == entries@.map_values(|e: Rt11Entry| e@),
        decreases n - offset,
    {
        let ghost prev = entries@;
        let ghost off0 = offset as int;
        let name_word: u16 = read_le16(data, offset);
        let ext_word: u16 = read_le16(data, offset + 2);
        let start: u16 = read_le16(data, offset + 4);
        let len: u16 = read_le16(data, offset + 6);

        if name_word == 0 && ext_word == 1 {
            proof {
                assert(rt11_entries_from(data@, off0) =~= Seq::<Rt11EntryV>::empty());
                assert(rt11_entries_from(data@, 0) =~= entries@.map_values(|e: Rt11Entry| e@));
            }
            break ;
        }
        if name_word == 0 && ext_word == 0 && start == 0 && len == 0 {
            offset = offset + 8;
            continue ;
        }

        let entry = Rt11Entry {
            name: decode_rad50_word(name_word),
            ext: decode_rad50_word(ext_word),
            start_block: start,
            length_blocks: len,
        };
        let ghost ev = entry@;
        entries.push(entry);
        offset = offset + 8;
        proof {
            assert(entries@.map_values(|e: Rt11Entry| e@) =~= prev.map_values(
                |e: Rt11Entry| e@,
            ).push(ev));
            assert(rt11_entries_from(data@, off0) =~= seq![ev] + rt11_entries_from(
                data@,
                offset as int,
            ));
            assert(rt11_entries_from(data@, 0) =~= entries@.map_values(|e: Rt11Entry| e@)
                + rt11_entries_from(data@, offset as int));
        }
    }

    Some(Rt11BlockInfo { entries })
}

} // verus!
