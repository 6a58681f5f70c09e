//! RSTS extraction: directory entries create directories; files are
//! truncated to the declared block count and prefixed with their UIC
//! bracket when the path does not already start with it.
use vstd::prelude::*;

use crate::pipeline::block::{TapeBlock, TapeBlockV};
use crate::pipeline::extract::{
    collect_block_bytes, sanitize_filename, spec_collect_bytes, spec_sanitize_filename,
    ExtractOutput, ExtractOutputV,
};
use crate::pipeline::file::{
    file_view, spec_join_path, FileMetadata, FileMetadataV, TapeFile, TapeFileV,
};
use crate::pipeline::reconstruct::builder::spec_uic_bracket;
use crate::utils::chars::{chars_of, match_at};

verus! {

/// The name an RSTS entry is written under: the joined path, prefixed
/// with the octal UIC bracket and a slash unless it already starts with
/// that bracket.
pub open spec fn spec_rsts_name(f: TapeFileV, m: crate::pipeline::file::RstsFileMetadata) -> Seq<
    char,
> {
    let name = spec_join_path(f.path);
    let uic = spec_uic_bracket(m.owner_uic);
    if match_at(name, uic, 0) {
        name
    } else {
        uic + seq!['/'] + name
    }
}

/// The RSTS plan: a directory when the block count is zero or the top
/// status bit is set; else the bytes truncated to the declared block
/// count times 512 when that is positive and shorter.
pub open spec fn spec_extract_rsts(f: TapeFileV, blocks: Seq<TapeBlockV>) -> ExtractOutputV {
    let raw = spec_collect_bytes(blocks, f.blocks);
    match f.metadata {
        FileMetadataV::Rsts(m) => {
            let is_dir = m.blocks == 0 || m.status >= 0x8000;
            let expected = m.blocks * 512;
            let data = if expected > 0 && raw.len() > expected {
                raw.take(expected as int)
            } else {
                raw
            };
            ExtractOutputV {
                path: spec_sanitize_filename(spec_rsts_name(f, m)),
                is_directory: is_dir,
                data: if is_dir {
                    Seq::empty()
                } else {
                    data
                },
            }
        },
        _ => ExtractOutputV {
            path: spec_sanitize_filename(spec_join_path(f.path)),
            is_directory: false,
            data: raw,
        },
    }
}

/// Plans an RSTS extraction.
pub fn extract(file: &TapeFile, blocks: &[TapeBlock]) -> (r: ExtractOutput)
    ensures
        r@ == spec_extract_rsts(file_view(*file), blocks@.map_values(|b: TapeBlock| b@)),
{
    let mut data = collect_block_bytes(file, blocks);
    let joined = file.path.to_string_path();

    match &file.metadata {
        FileMetadata::Rsts(m) => {
            let is_dir: bool = m.blocks == 0 || m.status >= 0x8000;
            let expected: usize = (m.blocks as usize) * 512;
            if expected > 0 && data.len() > expected {
                data.truncate(expected);
            }

            let uic = crate::pipeline::reconstruct::builder::uic_bracket(m.owner_uic);
            let name_chars = chars_of(joined.as_str());
            let uic_chars = chars_of(uic.as_str());
            let starts: bool = if uic_chars.len() <= name_chars.len() {
                crate::utils::chars::prefix_here(name_chars.as_slice(), uic_chars.as_slice())
            } else {
                false
            };
            let name: String = if starts {
                joined
            } else {
                let mut s = uic;
                s.append("/");
                s.append(joined.as_str());
                proof {
                    reveal_strlit("/");
                    assert(s@ =~= spec_uic_bracket(m.owner_uic) + seq!['/'] + joined@);
                }
                s
            };

            let path = sanitize_filename(name.as_str());
            if is_dir {
                ExtractOutput { path, is_directory: true, data: Vec::new() }
            } else {
                ExtractOutput { path, is_directory: false, data }
            }
        },
        _ => {
            let path = sanitize_filename(joined.as_str());
            ExtractOutput { path, is_directory: false, data }
        },
    }
}

} // verus!
