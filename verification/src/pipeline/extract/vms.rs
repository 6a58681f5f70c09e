//! Save-set extraction: an entry's block indices sorted ascending, then
//! the blocks' bytes concatenated verbatim.
use vstd::prelude::*;

use crate::pipeline::block::{TapeBlock, TapeBlockV};
use crate::pipeline::extract::{
    sanitize_filename, spec_collect_bytes, spec_entry_path, ExtractOutput, ExtractOutputV,
};
use crate::pipeline::file::{file_view, FileMetadata, TapeFile, TapeFileV};
use crate::pipeline::vms::reconstruct::{sort_block_numbers, sort_u32s};
use crate::TapeError;

verus! {

/// The save-set plan: the entry's block indices sorted ascending, their
/// bytes concatenated verbatim under the sanitised joined path.
pub open spec fn spec_extract_vms(f: TapeFileV, blocks: Seq<TapeBlockV>) -> ExtractOutputV {
    ExtractOutputV {
        path: spec_entry_path(f),
        is_directory: false,
        data: spec_collect_bytes(blocks, sort_u32s(f.blocks)),
    }
}

/// Plans a save-set extraction: block indices are sorted ascending
/// before concatenation; a missing index contributes nothing and does
/// not fail the plan. Entries of any other format are refused.
pub fn extract_vms_file(file: &TapeFile, blocks: &[TapeBlock]) -> (r: Result<
    ExtractOutput,
    TapeError,
>)
    ensures
        match r {
            Ok(o) => file.metadata is Vms && o@ == spec_extract_vms(
                file_view(*file),
                blocks@.map_values(|b: TapeBlock| b@),
            ),
            Err(e) => !(file.metadata is Vms) && e is UnsupportedFormat,
        },
{
    match &file.metadata {
        FileMetadata::Vms(_) => {},
        _ => {
            return Err(
                TapeError::UnsupportedFormat(
                    String::from_str("save-set extraction of a non-save-set entry"),
                ),
            );
        },
    }

    let joined = file.path.to_string_path();
    let path = sanitize_filename(joined.as_str());

    let sorted = sort_block_numbers(&file.blocks);

    let ghost bvs = blocks@.map_values(|b: TapeBlock| b@);
    let mut buffer: Vec<u8> = Vec::new();
    let n: usize = sorted.len();
    let mut i: usize = 0;
    while i < n
        invariant
            i <= n,
            n == sorted@.len(),
            bvs == blocks@.map_values(|b: TapeBlock| b@),
            buffer@ == spec_collect_bytes(bvs, sorted@.take(i as int)),
        decreases n - i,
    {
        match crate::pipeline::extract::lookup_block(blocks, sorted[i]) {
            Some(b) => {
                buffer.extend_from_slice(b.raw.as_slice());
            },
            None => {},
        }
        i = i + 1;
        proof {
            assert(sorted@.take(i as int).drop_last() =~= sorted@.take(i - 1));
            assert(sorted@.take(i as int).last() == sorted@[i - 1]);
            assert(buffer@ =~= spec_collect_bytes(bvs, sorted@.take(i as int)));
        }
    }
    proof {
        assert(sorted@.take(n as int) =~= sorted@);
    }

    Ok(ExtractOutput { path, is_directory: false, data: buffer })
}

/// Dispatcher alias for save-set extraction.
pub fn extract_vms_dispatch(file: &TapeFile, blocks: &[TapeBlock]) -> (r: Result<
    ExtractOutput,
    TapeError,
>)
    ensures
        match r {
            Ok(o) => file.metadata is Vms && o@ == spec_extract_vms(
                file_view(*file),
                blocks@.map_values(|b: TapeBlock| b@),
            ),
            Err(e) => !(file.metadata is Vms) && e is UnsupportedFormat,
        },
{
    extract_vms_file(file, blocks)
}

} // verus!
