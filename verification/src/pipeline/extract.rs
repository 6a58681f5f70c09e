//! Extraction planning: for each reconstructed entry, the exact output
//! path, whether a directory is created, and the exact bytes written.
//! Writing the plan to disk is the caller's concern.
use vstd::prelude::*;

pub mod raw;
pub mod rsts;
pub mod rsx;
pub mod rt11;
pub mod vms;

use crate::pipeline::block::{TapeBlock, TapeBlockV, TapeFormat};
use crate::pipeline::file::{file_view, path_view, spec_join_path, TapeFile};
use crate::utils::fmt::push_char;

verus! {

/// One planned extraction: the sanitised relative output path, whether
/// only a directory is created, and the bytes to write otherwise.
#[derive(Debug, Clone, PartialEq, Eq)]
pub struct ExtractOutput {
    pub path: String,
    pub is_directory: bool,
    pub data: Vec<u8>,
}

/// Mathematical model of one planned extraction.
pub struct ExtractOutputV {
    pub path: Seq<char>,
    pub is_directory: bool,
    pub data: Seq<u8>,
}

impl View for ExtractOutput {
    type V = ExtractOutputV;

    open spec fn view(&self) -> ExtractOutputV {
        ExtractOutputV { path: self.path@, is_directory: self.is_directory, data: self.data@ }
    }
}

/// A character allowed in output paths: ASCII alphanumerics, underscore,
/// dot, dash and the path separator.
pub open spec fn path_char_ok(c: char) -> bool {
    ||| 48 <= c as u32 <= 57
    ||| 65 <= c as u32 <= 90
    ||| 97 <= c as u32 <= 122
    ||| c == '_'
    ||| c == '.'
    ||| c == '-'
    ||| c == '/'
}

/// The sanitised form of a path: disallowed characters become
/// underscores.
pub open spec fn spec_sanitize_filename(s: Seq<char>) -> Seq<char> {
    s.map_values(
        |c: char|
            if path_char_ok(c) {
                c
            } else {
                '_'
            },
    )
}

/// Sanitises an output path: every character outside ASCII
/// alphanumerics, underscore, dot, dash and slash becomes an underscore.
#[verifier::loop_isolation(false)]
pub fn sanitize_filename(s: &str) -> (r: String)
    ensures
        r@ == spec_sanitize_filename(s@),
{
    let n: usize = s.unicode_len();
    let mut out = String::new();
    let mut i: usize = 0;
    while i < n
        invariant
            i <= n,
            out@ == spec_sanitize_filename(s@.take(i as int)),
        decreases n - i,
    {
        let c: char = s.get_char(i);
        let u: u32 = c as u32;
        if (48 <= u && u <= 57) || (65 <= u && u <= 90) || (97 <= u && u <= 122) || c == '_' || c
            == '.' || c == '-' || c == '/' {
            push_char(&mut out, c);
        } else {
            push_char(&mut out, '_');
        }
        i = i + 1;
        proof {
            assert(out@ =~= spec_sanitize_filename(s@.take(i as int)));
        }
    }
    proof {
        assert(s@.take(n as int) =~= s@);
    }
    out
}

/// The position of the first block with the given index, or -1.
pub open spec fn find_block(blocks: Seq<TapeBlockV>, idx: u32, i: int) -> int
    decreases blocks.len() - i,
{
    if i < 0 || i >= blocks.len() {
        -1
    } else if blocks[i].index == idx {
        i
    } else {
        find_block(blocks, idx, i + 1)
    }
}

/// The bytes of the listed blocks, concatenated in list order; an index
/// with no block contributes nothing.
pub open spec fn spec_collect_bytes(blocks: Seq<TapeBlockV>, idxs: Seq<u32>) -> Seq<u8>
    decreases idxs.len(),
{
    if idxs.len() == 0 {
        Seq::empty()
    } else {
        spec_collect_bytes(blocks, idxs.drop_last()) + (if find_block(blocks, idxs.last(), 0)
            >= 0 {
            blocks[find_block(blocks, idxs.last(), 0)].raw
        } else {
            Seq::empty()
        })
    }
}

pub(crate) fn lookup_block<'a>(blocks: &'a [TapeBlock], idx: u32) -> (r: Option<&'a TapeBlock>)
    ensures
        ({
            let j = find_block(blocks@.map_values(|b: TapeBlock| b@), idx, 0);
            match r {
                Some(b) => 0 <= j < blocks@.len() && *b == blocks@[j],
                None => j == -1,
            }
        }),
{
    let ghost bvs = blocks@.map_values(|b: TapeBlock| b@);
    let n: usize = blocks.len();
    let mut i: usize = 0;
    while i < n
        invariant
            i <= n,
            n == blocks@.len(),
            bvs == blocks@.map_values(|b: TapeBlock| b@),
            find_block(bvs, idx, 0) == find_block(bvs, idx, i as int),
        decreases n - i,
    {
        if blocks[i].index == idx {
            proof {
                assert(bvs[i as int].index == idx);
            }
            return Some(&blocks[i]);
        }
        proof {
            assert(bvs[i as int].index != idx);
        }
        i = i + 1;
    }
    None
}

/// Concatenates the raw bytes of an entry's blocks, in the entry's
/// block-index list order; missing indices are skipped.
#[verifier::loop_isolation(false)]
pub fn collect_block_bytes(file: &TapeFile, blocks: &[TapeBlock]) -> (r: Vec<u8>)
    ensures
        r@ == spec_collect_bytes(blocks@.map_values(|b: TapeBlock| b@), file.blocks@),
{
    let ghost bvs = blocks@.map_values(|b: TapeBlock| b@);
    let mut bytes: Vec<u8> = Vec::new();
    let n: usize = file.blocks.len();
    let mut i: usize = 0;
    while i < n
        invariant
            i <= n,
            bytes@ == spec_collect_bytes(bvs, file.blocks@.take(i as int)),
        decreases n - i,
    {
        match lookup_block(blocks, file.blocks[i]) {
            Some(b) => {
                bytes.extend_from_slice(b.raw.as_slice());
            },
            None => {},
        }
        i = i + 1;
        proof {
            assert(file.blocks@.take(i as int).drop_last() =~= file.blocks@.take(i - 1));
            assert(file.blocks@.take(i as int).last() == file.blocks@[i - 1]);
            assert(bytes@ =~= spec_collect_bytes(bvs, file.blocks@.take(i as int)));
        }
    }
    proof {
        assert(file.blocks@.take(n as int) =~= file.blocks@);
    }
    bytes
}

/// The sanitised joined path of an entry.
pub open spec fn spec_entry_path(f: crate::pipeline::file::TapeFileV) -> Seq<char> {
    spec_sanitize_filename(spec_join_path(f.path))
}

/// Plans the extraction of one entry, dispatched by its format: the
/// directory formats apply their own directory and truncation rules; the
/// save-set format and raw entries write their blocks' bytes verbatim.
pub fn extract_file(file: &TapeFile, blocks: &[TapeBlock]) -> (r: ExtractOutput)
    ensures
        r@ == (match file.format {
            TapeFormat::Rsx => rsx::spec_extract_rsx(
                file_view(*file),
                blocks@.map_values(|b: TapeBlock| b@),
            ),
            TapeFormat::Rt11 => rt11::spec_extract_rt11(
                file_view(*file),
                blocks@.map_values(|b: TapeBlock| b@),
            ),
            TapeFormat::Rsts => rsts::spec_extract_rsts(
                file_view(*file),
                blocks@.map_values(|b: TapeBlock| b@),
            ),
            _ => raw::spec_extract_raw(file_view(*file), blocks@.map_values(|b: TapeBlock| b@)),
        }),
{
    match file.format {
        TapeFormat::Rsx => rsx::extract(file, blocks),
        TapeFormat::Rt11 => rt11::extract(file, blocks),
        TapeFormat::Rsts => rsts::extract(file, blocks),
        TapeFormat::Vms => raw::extract_raw_file(file, blocks),
        _ => raw::extract_raw_file(file, blocks),
    }
}

} // verus!
