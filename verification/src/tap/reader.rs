//! Splitting a raw image into classified-pipeline blocks: length-framed
//! records become indexed blocks, initially unclassified.
use vstd::prelude::*;

use crate::pipeline::block::{BlockClassification, TapeBlock, TapeBlockV};
use crate::utils::bytes::{copy_range, le32_at, read_le32};

verus! {

/// The blocks framed from byte offset `off` on, numbered from `idx`:
/// each record's 32-bit little-endian length prefix is followed by its
/// bytes and a trailing length word; framing stops cleanly at a zero
/// length, a record overrunning the buffer, or a missing trailer.
pub open spec fn spec_read_tap_blocks(d: Seq<u8>, off: int, idx: int) -> Seq<TapeBlockV>
    decreases d.len() + 9 - off,
{
    if off < 0 || off + 4 > d.len() || idx < 0 || idx > 0xFFFFFFFF {
        Seq::empty()
    } else {
        let len = le32_at(d, off) as int;
        if len == 0 || off + 4 + len > d.len() {
            Seq::empty()
        } else {
            let b = TapeBlockV {
                index: idx as u32,
                size: len as nat,
                raw: d.subrange(off + 4, off + 4 + len),
                classification: BlockClassification::Unknown,
            };
            if off + 4 + len + 4 <= d.len() {
                seq![b] + spec_read_tap_blocks(d, off + 4 + len + 4, idx + 1)
            } else {
                seq![b]
            }
        }
    }
}

/// Splits a raw image into unclassified blocks: each record framed by
/// its length prefix becomes one block, trailers skipped.
#[verifier::rlimit(60)]
pub fn read_tap_blocks(data: &[u8]) -> (r: Vec<TapeBlock>)
    ensures
        r@.map_values(|b: TapeBlock| b@) == spec_read_tap_blocks(data@, 0, 0),
{
    let n: usize = data.len();
    let mut blocks: Vec<TapeBlock> = Vec::new();
    let mut offset: usize = 0;
    let mut index: u32 = 0;

    proof {
        assert(blocks@.map_values(|b: TapeBlock| b@) =~= Seq::<TapeBlockV>::empty());
    }
    loop
        invariant_except_break
            spec_read_tap_blocks(data@, 0, 0) == blocks@.map_values(|b: TapeBlock| b@)
                + spec_read_tap_blocks(data@, offset as int, index as int),
        invariant
            offset <= n,
            n == data@.len(),
        ensures
            spec_read_tap_blocks(data@, 0, 0) == blocks@.map_values(|b: TapeBlock| b@),
        decreases n + 9 - offset,
    {
        let ghost prev = blocks@;
        let ghost off0 = offset as int;
        let ghost idx0 = index as int;
        if n - offset < 4 {
            proof {
                assert(spec_read_tap_blocks(data@, off0, idx0) =~= Seq::<TapeBlockV>::empty());
            }
            break ;
        }
        let len: usize = read_le32(data, offset) as usize;
        offset = offset + 4;

        if len == 0 || len > n - offset {
            proof {
                assert(spec_read_tap_blocks(data@, off0, idx0) =~= Seq::<TapeBlockV>::empty());
            }
            break ;
        }

        let raw: Vec<u8> = copy_range(data, offset, offset + len);
        let block = TapeBlock {
            index,
            size: len,
            raw,
            classification: BlockClassification::Unknown,
        };
        let ghost bv = block@;
        blocks.push(block);
        offset = offset + len;
        proof {
            assert(blocks@.map_values(|b: TapeBlock| b@) =~= prev.map_values(
                |b: TapeBlock| b@,
            ).push(bv));
        }

        if n - offset >= 4 {
            offset = offset + 4;
        } else {
            proof {
                assert(spec_read_tap_blocks(data@, off0, idx0) =~= seq![bv]);
                assert(spec_read_tap_blocks(data@, 0, 0) =~= blocks@.map_values(
                    |b: TapeBlock| b@,
                ));
            }
            break ;
        }

        if index == 0xFFFFFFFF {
            proof {
                assert(spec_read_tap_blocks(data@, off0, idx0) =~= seq![bv]
                    + spec_read_tap_blocks(data@, offset as int, idx0 + 1));
                assert(spec_read_tap_blocks(data@, offset as int, idx0 + 1) =~= Seq::<
                    TapeBlockV,
                >::empty());
                assert(spec_read_tap_blocks(data@, 0, 0) =~= blocks@.map_values(
                    |b: TapeBlock| b@,
                ));
            }
            break ;
        }
        index = index + 1;
        proof {
            assert(spec_read_tap_blocks(data@, off0, idx0) =~= seq![bv] + spec_read_tap_blocks(
                data@,
                offset as int,
                index as int,
            ));
            assert(spec_read_tap_blocks(data@, 0, 0) =~= blocks@.map_values(|b: TapeBlock| b@)
                + spec_read_tap_blocks(data@, offset as int, index as int));
        }
    }

    blocks
}

} // verus!
