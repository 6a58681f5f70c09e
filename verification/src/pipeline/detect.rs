//! Per-block format classification and whole-image plurality vote.
use vstd::prelude::*;

use crate::pipeline::block::{
    BlockClassification, RstsBlockKind, RsxBlockKind, Rt11BlockKind, TapeBlock, TapeFormat,
    VmsBlockKind,
};

verus! {

/// The classification of one block's bytes, checked in priority order:
/// the save-set short-header rule first (record-type byte 2 with a class
/// byte of 0x44, 0x45 or 0x46 on blocks of at least 20 bytes), then the
/// three 512-byte directory heuristics, else raw.
pub open spec fn spec_detect_block(d: Seq<u8>) -> BlockClassification {
    if d.len() >= 20 && d[0] == 2 && (d[2] == 0x44 || d[2] == 0x45 || d[2] == 0x46) {
        BlockClassification::Vms(VmsBlockKind::Placeholder)
    } else if d.len() == 512 && ((d[0] == 0x31 && d[1] == 0) || (d[0] == 0x40 && d[1] == 0)) {
        BlockClassification::Rsx(RsxBlockKind::Placeholder)
    } else if d.len() == 512 && d[0] != 0 && d[2] != 0 {
        BlockClassification::Rt11(Rt11BlockKind::Placeholder)
    } else if d.len() == 512 && d[1] == 0 && d[4] == 0 {
        BlockClassification::Rsts(RstsBlockKind::Placeholder)
    } else {
        BlockClassification::Raw
    }
}

/// Classifies one block by its bytes.
pub fn detect_block_format(block: &TapeBlock) -> (r: BlockClassification)
    ensures
        r == spec_detect_block(block@.raw),
{
    let data = block.raw.as_slice();
    let n: usize = data.len();

    if n >= 20 {
        let record_type: u8 = data[0];
        let class: u8 = data[2];
        if record_type == 0x02 && (class == 0x44 || class == 0x45 || class == 0x46) {
            return BlockClassification::Vms(VmsBlockKind::Placeholder);
        }
    }

    if n == 512 {
        if (data[0] == 0x31 && data[1] == 0x00) || (data[0] == 0x40 && data[1] == 0x00) {
            return BlockClassification::Rsx(RsxBlockKind::Placeholder);
        }
        if data[0] != 0 && data[2] != 0 {
            return BlockClassification::Rt11(Rt11BlockKind::Placeholder);
        }
        if data[1] == 0 && data[4] == 0 {
            return BlockClassification::Rsts(RstsBlockKind::Placeholder);
        }
    }

    BlockClassification::Raw
}

/// The coarse format tag of one block's classification.
pub open spec fn class_tag(c: BlockClassification) -> TapeFormat {
    match c {
        BlockClassification::Vms(_) => TapeFormat::Vms,
        BlockClassification::Rsx(_) => TapeFormat::Rsx,
        BlockClassification::Rt11(_) => TapeFormat::Rt11,
        BlockClassification::Rsts(_) => TapeFormat::Rsts,
        BlockClassification::Unknown => TapeFormat::Unknown,
        BlockClassification::Raw => TapeFormat::Raw,
    }
}

/// How many of the byte sequences classify to the given format tag.
pub open spec fn count_tag(raws: Seq<Seq<u8>>, t: TapeFormat) -> nat
    decreases raws.len(),
{
    if raws.len() == 0 {
        0
    } else {
        count_tag(raws.drop_last(), t) + (if class_tag(spec_detect_block(raws.last())) == t {
            1nat
        } else {
            0nat
        })
    }
}

/// The plurality vote over all blocks: the tag with the highest count
/// of classified blocks, ties broken in fixed priority order (save-set
/// first, then the directory formats); unknown when nothing classified.
pub open spec fn spec_dominant(raws: Seq<Seq<u8>>) -> TapeFormat {
    let v = count_tag(raws, TapeFormat::Vms);
    let r = count_tag(raws, TapeFormat::Rsx);
    let t = count_tag(raws, TapeFormat::Rt11);
    let e = count_tag(raws, TapeFormat::Rsts);
    if v == 0 && r == 0 && t == 0 && e == 0 {
        TapeFormat::Unknown
    } else if v >= r && v >= t && v >= e {
        TapeFormat::Vms
    } else if r >= t && r >= e {
        TapeFormat::Rsx
    } else if t >= e {
        TapeFormat::Rt11
    } else {
        TapeFormat::Rsts
    }
}

/// Classifies every block in place and returns the image's dominant
/// format by plurality vote; only each block's classification changes.
pub fn analyze_blocks(blocks: &mut Vec<TapeBlock>) -> (r: TapeFormat)
    ensures
        final(blocks)@.len() == old(blocks)@.len(),
        forall|i: int|
            0 <= i < old(blocks)@.len() ==> #[trigger] final(blocks)@[i] == (TapeBlock {
                classification: spec_detect_block(old(blocks)@[i].raw@),
                ..old(blocks)@[i]
            }),
        r == spec_dominant(old(blocks)@.map_values(|b: TapeBlock| b@.raw)),
{
    let ghost raws = old(blocks)@.map_values(|b: TapeBlock| b@.raw);
    let n: usize = blocks.len();
    let mut vms: usize = 0;
    let mut rsx: usize = 0;
    let mut rt11: usize = 0;
    let mut rsts: usize = 0;

    let mut i: usize = 0;
    while i < n
        invariant
            i <= n,
            n == blocks@.len(),
            n == old(blocks)@.len(),
            raws == old(blocks)@.map_values(|b: TapeBlock| b@.raw),
            forall|j: int| i <= j < n ==> #[trigger] blocks@[j] == old(blocks)@[j],
            forall|j: int|
                0 <= j < i ==> #[trigger] blocks@[j] == (TapeBlock {
                    classification: spec_detect_block(old(blocks)@[j].raw@),
                    ..old(blocks)@[j]
                }),
            vms == count_tag(raws.take(i as int), TapeFormat::Vms),
            rsx == count_tag(raws.take(i as int), TapeFormat::Rsx),
            rt11 == count_tag(raws.take(i as int), TapeFormat::Rt11),
            rsts == count_tag(raws.take(i as int), TapeFormat::Rsts),
            vms <= i && rsx <= i && rt11 <= i && rsts <= i,
        decreases n - i,
    {
        let c: BlockClassification = detect_block_format(&blocks[i]);
        match c {
            BlockClassification::Vms(_) => {
                vms = vms + 1;
            },
            BlockClassification::Rsx(_) => {
                rsx = rsx + 1;
            },
            BlockClassification::Rt11(_) => {
                rt11 = rt11 + 1;
            },
            BlockClassification::Rsts(_) => {
                rsts = rsts + 1;
            },
            _ => {},
        }
        blocks[i].classification = c;
        i = i + 1;
        proof {
            assert(raws.take(i as int).drop_last() =~= raws.take(i - 1));
            assert(raws.take(i as int).last() == old(blocks)@[i - 1].raw@);
        }
    }
    proof {
        assert(raws.take(n as int) =~= raws);
    }

    if vms == 0 && rsx == 0 && rt11 == 0 && rsts == 0 {
        TapeFormat::Unknown
    } else if vms >= rsx && vms >= rt11 && vms >= rsts {
        TapeFormat::Vms
    } else if rsx >= rt11 && rsx >= rsts {
        TapeFormat::Rsx
    } else if rt11 >= rsts {
        TapeFormat::Rt11
    } else {
        TapeFormat::Rsts
    }
}

} // verus!
