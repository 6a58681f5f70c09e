//! Raw extraction: constituent blocks concatenated verbatim.
use vstd::prelude::*;

use crate::pipeline::block::{TapeBlock, TapeBlockV};
use crate::pipeline::extract::{
    collect_block_bytes, sanitize_filename, spec_collect_bytes, spec_entry_path, ExtractOutput,
    ExtractOutputV,
};
use crate::pipeline::file::{file_view, TapeFile, TapeFileV};

verus! {

/// The raw plan: the sanitised joined path, no directory, and the
/// blocks' bytes in list order.
pub open spec fn spec_extract_raw(f: TapeFileV, blocks: Seq<TapeBlockV>) -> ExtractOutputV {
    ExtractOutputV {
        path: spec_entry_path(f),
        is_directory: false,
        data: spec_collect_bytes(blocks, f.blocks),
    }
}

/// Plans a raw extraction: every constituent block's bytes, verbatim, in
/// the entry's block-index list order.
pub fn extract_raw_file(file: &TapeFile, blocks: &[TapeBlock]) -> (r: ExtractOutput)
    ensures
        r@ == spec_extract_raw(file_view(*file), blocks@.map_values(|b: TapeBlock| b@)),
{
    let data = collect_block_bytes(file, blocks);
    let joined = file.path.to_string_path();
    let path = sanitize_filename(joined.as_str());
    ExtractOutput { path, is_directory: false, data }
}

} // verus!
