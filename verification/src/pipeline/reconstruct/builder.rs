//! Directory-format builders: decoded entries become files inserted into
//! a shared tree keyed by their synthetic paths.
use vstd::prelude::*;

use crate::pipeline::block::{TapeBlock, TapeBlockV, TapeFormat};
use crate::pipeline::file::{
    file_view, files_view, lemma_files_view, path_view, FileMetadata, FileMetadataV,
    RstsFileMetadata, RsxFileMetadata, Rt11FileMetadata, Rt11FileMetadataV, TapeFile, TapeFileV,
    TapePath, Uic,
};
use crate::pipeline::parse::rsts::{rsts_block_valid, spec_parse_rsts, RstsEntry, RstsEntryV};
use crate::pipeline::parse::rsx::{rsx_block_valid, spec_parse_rsx};
use crate::pipeline::parse::rt11::{rt11_block_valid, spec_parse_rt11, Rt11Entry, Rt11EntryV};
use crate::pipeline::parse::{parse_classified_block, ParsedBlock};
use crate::utils::fmt::{dec_digits_min, oct_digits, push_decimal_min, push_octal};

verus! {

broadcast use vstd::std_specs::vec::group_vec_axioms;

/// The index of the first file at or after `i` whose path equals the
/// prefix, or -1 when there is none.
pub open spec fn node_index(level: Seq<TapeFileV>, prefix: Seq<Seq<char>>, i: int) -> int
    decreases level.len() - i,
{
    if i < 0 || i >= level.len() {
        -1
    } else if level[i].path == prefix {
        i
    } else {
        node_index(level, prefix, i + 1)
    }
}

/// Insertion of a file into one level of the tree: for each proper
/// prefix of the file's path, the first node with that exact path is
/// selected, or a fresh directory node with that path, no blocks and raw
/// metadata is appended; the file itself is appended at the last level
/// reached.
pub open spec fn level_insert(level: Seq<TapeFileV>, f: TapeFileV, depth: int) -> Seq<TapeFileV>
    decreases f.path.len() - depth,
{
    if depth < 0 || depth >= f.path.len() - 1 {
        level.push(f)
    } else {
        let prefix = f.path.take(depth + 1);
        let j = node_index(level, prefix, 0);
        if 0 <= j < level.len() {
            level.update(
                j,
                TapeFileV { children: level_insert(level[j].children, f, depth + 1), ..level[j] },
            )
        } else {
            level.push(
                TapeFileV {
                    format: f.format,
                    path: prefix,
                    size_bytes: 0,
                    blocks: Seq::empty(),
                    metadata: FileMetadataV::Raw,
                    children: level_insert(Seq::empty(), f, depth + 1),
                },
            )
        }
    }
}

/// Insertion of a file into the tree; a file with an empty path is
/// dropped.
pub open spec fn spec_insert_into_tree(level: Seq<TapeFileV>, f: TapeFileV) -> Seq<TapeFileV> {
    if f.path.len() == 0 {
        level
    } else {
        level_insert(level, f, 0)
    }
}

fn string_vecs_eq(a: &Vec<String>, b: &Vec<String>) -> (r: bool)
    ensures
        r == (a@.map_values(|e: String| e@) == b@.map_values(|e: String| e@)),
{
    let na: usize = a.len();
    let nb: usize = b.len();
    if na != nb {
        proof {
            assert(a@.map_values(|e: String| e@).len() != b@.map_values(|e: String| e@).len());
        }
        return false;
    }
    let mut i: usize = 0;
    while i < na
        invariant
            i <= na,
            na == a@.len(),
            na == b@.len(),
            forall|j: int| 0 <= j < i ==> #[trigger] a@[j]@ == b@[j]@,
        decreases na - i,
    {
        if !crate::utils::chars::str_eq(a[i].as_str(), b[i].as_str()) {
            proof {
                assert(a@.map_values(|e: String| e@)[i as int] != b@.map_values(
                    |e: String| e@,
                )[i as int]);
            }
            return false;
        }
        i = i + 1;
    }
    proof {
        assert(a@.map_values(|e: String| e@) =~= b@.map_values(|e: String| e@));
    }
    true
}

fn insert_level(level: &mut Vec<TapeFile>, file: TapeFile, depth: usize)
    requires
        file.path.elements@.len() > 0,
        depth < file.path.elements@.len(),
    ensures
        files_view(final(level)@) == level_insert(
            files_view(old(level)@),
            file_view(file),
            depth as int,
        ),
    decreases file.path.elements@.len() - depth,
{
    let ghost fv = file_view(file);
    let plen: usize = file.path.elements.len();
    if depth >= plen - 1 {
        let ghost prev = level@;
        level.push(file);
        proof {
            lemma_files_view(level@);
            lemma_files_view(prev);
            assert(level@.drop_last() =~= prev);
            assert(files_view(level@) =~= files_view(prev).push(fv));
        }
        return ;
    }

    let mut prefix: Vec<String> = Vec::new();
    let mut t: usize = 0;
    let mut go = true;
    while go
        invariant
            t <= depth + 1,
            depth < plen,
            plen == file.path.elements@.len(),
            go == (t <= depth),
            prefix@.map_values(|e: String| e@) == path_view(file.path).take(t as int),
        decreases depth + 1 - t,
    {
        let ghost prevp = prefix@;
        prefix.push(file.path.elements[t].clone());
        t = t + 1;
        go = t <= depth;
        proof {
            assert(prefix@.map_values(|e: String| e@) =~= prevp.map_values(|e: String| e@).push(
                file.path.elements@[t - 1]@,
            ));
            assert(prefix@.map_values(|e: String| e@) =~= path_view(file.path).take(t as int));
        }
    }
    let ghost prefix_v = fv.path.take(depth + 1);
    proof {
        assert(prefix@.map_values(|e: String| e@) =~= prefix_v);
    }

    let ghost old_level = level@;
    let nlevel: usize = level.len();
    proof {
        lemma_files_view(level@);
    }
    let mut j: usize = 0;
    let mut found: bool = false;
    while j < nlevel
        invariant_except_break
            !found,
        invariant
            j <= nlevel,
            nlevel == level@.len(),
            level@ == old_level,
            files_view(level@).len() == nlevel,
            prefix@.map_values(|e: String| e@) == prefix_v,
            node_index(files_view(level@), prefix_v, 0) == node_index(
                files_view(level@),
                prefix_v,
                j as int,
            ),
        ensures
            level@ == old_level,
            nlevel == level@.len(),
            found ==> j < nlevel && node_index(files_view(level@), prefix_v, 0) == j,
            !found ==> node_index(files_view(level@), prefix_v, 0) == -1,
        decreases nlevel - j,
    {
        proof {
            lemma_files_view(level@);
            assert(files_view(level@)[j as int] == file_view(level@[j as int]));
        }
        if string_vecs_eq(&level[j].path.elements, &prefix) {
            found = true;
            proof {
                assert(files_view(level@)[j as int].path == prefix_v);
                assert(node_index(files_view(level@), prefix_v, j as int) == j);
            }
            break ;
        }
        proof {
            assert(files_view(level@)[j as int].path != prefix_v);
            assert(node_index(files_view(level@), prefix_v, j as int) == node_index(
                files_view(level@),
                prefix_v,
                j + 1,
            ));
        }
        j = j + 1;
    }

    if found {
        let node = &mut level[j];
        insert_level(&mut node.children, file, depth + 1);
        proof {
            let ov = files_view(old_level);
            lemma_files_view(old_level);
            lemma_files_view(level@);
            let want = ov.update(
                j as int,
                TapeFileV {
                    children: level_insert(ov[j as int].children, fv, depth + 1),
                    ..ov[j as int]
                },
            );
            assert(level@ =~= old_level.update(j as int, level@[j as int]));
            assert forall|i: int| 0 <= i < level@.len() implies files_view(level@)[i] == want[i] by {
                assert(files_view(level@)[i] == file_view(level@[i]));
                if i != j {
                    assert(level@[i] == old_level[i]);
                    assert(ov[i] == file_view(old_level[i]));
                } else {
                    assert(file_view(level@[j as int]).children == level_insert(
                        files_view(old_level[j as int].children@),
                        fv,
                        depth + 1,
                    ));
                    assert(ov[j as int] == file_view(old_level[j as int]));
                }
            }
            assert(files_view(level@) =~= want);
        }
    } else {
        let fresh = TapeFile {
            format: file.format,
            path: TapePath::new(prefix),
            size_bytes: 0,
            blocks: Vec::new(),
            metadata: FileMetadata::Raw,
            children: Vec::new(),
        };
        proof {
            assert(files_view(fresh.children@) =~= Seq::<TapeFileV>::empty());
            assert(file_view(fresh).blocks =~= Seq::<u32>::empty());
        }
        let ghost fresh_v = file_view(fresh);
        level.push(fresh);
        let idx: usize = level.len() - 1;
        let node = &mut level[idx];
        insert_level(&mut node.children, file, depth + 1);
        proof {
            let ov = files_view(old_level);
            lemma_files_view(old_level);
            lemma_files_view(level@);
            let inserted = TapeFileV {
                format: fv.format,
                path: prefix_v,
                size_bytes: 0,
                blocks: Seq::empty(),
                metadata: FileMetadataV::Raw,
                children: level_insert(Seq::empty(), fv, depth + 1),
            };
            let want = ov.push(inserted);
            assert(level@ =~= old_level.push(fresh).update(idx as int, level@[idx as int]));
            assert forall|i: int| 0 <= i < level@.len() implies files_view(level@)[i] == want[i] by {
                assert(files_view(level@)[i] == file_view(level@[i]));
                if i != idx {
                    assert(level@[i] == old_level[i]);
                    assert(ov[i] == file_view(old_level[i]));
                } else {
                    assert(file_view(level@[idx as int]).children == level_insert(
                        files_view(fresh.children@),
                        fv,
                        depth + 1,
                    ));
                }
            }
            assert(files_view(level@) =~= want);
        }
    }
}

/// Inserts a reconstructed file into the tree under its path; a file
/// with an empty path is dropped.
pub fn insert_into_tree(tree: &mut Vec<TapeFile>, file: TapeFile)
    ensures
        files_view(final(tree)@) == spec_insert_into_tree(
            files_view(old(tree)@),
            file_view(file),
        ),
{
    if file.path.elements.len() == 0 {
        return ;
    }
    insert_level(tree, file, 0);
}

/// The synthetic entry a block contributes when it cannot be decoded: a
/// single-block raw leaf named by the block's index.
pub open spec fn spec_raw_block_entry(b: TapeBlockV) -> TapeFileV {
    TapeFileV {
        format: TapeFormat::Raw,
        path: seq!["block_"@ + dec_digits_min(b.index as nat, 5)],
        size_bytes: b.size as u64,
        blocks: seq![b.index],
        metadata: FileMetadataV::Raw,
        children: Seq::empty(),
    }
}

fn raw_block_entry(block: &TapeBlock) -> (r: TapeFile)
    ensures
        file_view(r) == spec_raw_block_entry(block@),
{
    let mut name = String::from_str("block_");
    push_decimal_min(&mut name, block.index as u64, 5);
    let mut elements: Vec<String> = Vec::new();
    elements.push(name);
    let r = TapeFile {
        format: TapeFormat::Raw,
        path: TapePath::new(elements),
        size_bytes: block.size as u64,
        blocks: {
            let mut b: Vec<u32> = Vec::new();
            b.push(block.index);
            b
        },
        metadata: FileMetadata::Raw,
        children: Vec::new(),
    };
    proof {
        assert(path_view(r.path) =~= spec_raw_block_entry(block@).path);
        assert(r.blocks@ =~= seq![block@.index]);
        assert(files_view(r.children@) =~= Seq::<TapeFileV>::empty());
    }
    r
}

/// The octal `[group,member]` bracket prefix of a UIC.
pub open spec fn spec_uic_bracket(uic: Uic) -> Seq<char> {
    seq!['['] + oct_digits(uic.group as nat) + seq![','] + oct_digits(uic.member as nat) + seq![
        ']',
    ]
}

/// Formats the octal `[group,member]` bracket of a UIC.
pub fn uic_bracket(uic: Uic) -> (r: String)
    ensures
        r@ == spec_uic_bracket(uic),
{
    let mut s = String::from_str("[");
    push_octal(&mut s, uic.group as u64);
    s.append(",");
    push_octal(&mut s, uic.member as u64);
    s.append("]");
    proof {
        reveal_strlit("[");
        reveal_strlit(",");
        reveal_strlit("]");
        assert(s@ =~= spec_uic_bracket(uic));
    }
    s
}

/// `NAME` when the extension is empty, else `NAME.EXT`.
pub open spec fn spec_format_rt11_name(name: Seq<char>, ext: Seq<char>) -> Seq<char> {
    if ext.len() == 0 {
        name
    } else {
        name + seq!['.'] + ext
    }
}

fn format_rt11_name(name: &str, ext: &str) -> (r: String)
    ensures
        r@ == spec_format_rt11_name(name@, ext@),
{
    if ext.is_empty() {
        String::from_str(name)
    } else {
        let mut s = String::from_str(name);
        s.append(".");
        s.append(ext);
        proof {
            reveal_strlit(".");
            assert(s@ =~= spec_format_rt11_name(name@, ext@));
        }
        s
    }
}

/// The entry one block contributes to the RSX tree: a decoded header
/// becomes a file under its UIC bracket, named by the header or by the
/// block index when the name is empty; anything else becomes a raw leaf.
pub open spec fn spec_rsx_entry(b: TapeBlockV) -> TapeFileV {
    if b.classification is Rsx && rsx_block_valid(b.raw) {
        let info = spec_parse_rsx(b.raw);
        TapeFileV {
            format: TapeFormat::Rsx,
            path: seq![
                spec_uic_bracket(info.uic),
                if info.name.len() == 0 {
                    "unnamed_"@ + dec_digits_min(b.index as nat, 5)
                } else {
                    info.name
                },
            ],
            size_bytes: b.size as u64,
            blocks: seq![b.index],
            metadata: FileMetadataV::Rsx(
                RsxFileMetadata {
                    uic: info.uic,
                    protection: info.protection,
                    is_directory: info.is_directory,
                },
            ),
            children: Seq::empty(),
        }
    } else {
        spec_raw_block_entry(b)
    }
}

/// The RSX tree built over a block sequence, one entry per block.
pub open spec fn spec_reconstruct_rsx(blocks: Seq<TapeBlockV>) -> Seq<TapeFileV>
    decreases blocks.len(),
{
    if blocks.len() == 0 {
        Seq::empty()
    } else {
        spec_insert_into_tree(
            spec_reconstruct_rsx(blocks.drop_last()),
            spec_rsx_entry(blocks.last()),
        )
    }
}

/// Builds the RSX file tree: every block contributes one entry.
#[verifier::loop_isolation(false)]
pub fn reconstruct_rsx(blocks: &[TapeBlock]) -> (r: Vec<TapeFile>)
    ensures
        files_view(r@) == spec_reconstruct_rsx(blocks@.map_values(|b: TapeBlock| b@)),
{
    let ghost bvs = blocks@.map_values(|b: TapeBlock| b@);
    let mut tree: Vec<TapeFile> = Vec::new();
    let n: usize = blocks.len();
    proof {
        assert(files_view(tree@) =~= Seq::<TapeFileV>::empty());
        assert(bvs.take(0) =~= Seq::<TapeBlockV>::empty());
    }
    let mut i: usize = 0;
    while i < n
        invariant
            i <= n,
            files_view(tree@) == spec_reconstruct_rsx(bvs.take(i as int)),
        decreases n - i,
    {
        let block = &blocks[i];
        proof {
            assert(bvs.take(i + 1).drop_last() =~= bvs.take(i as int));
            assert(bvs.take(i + 1).last() == blocks@[i as int]@);
        }
        match parse_classified_block(block) {
            Some(ParsedBlock::Rsx(info)) => {
                let bracket = uic_bracket(info.uic);
                let name: String = if info.name.as_str().is_empty() {
                    let mut s = String::from_str("unnamed_");
                    push_decimal_min(&mut s, block.index as u64, 5);
                    s
                } else {
                    info.name.clone()
                };
                let metadata = FileMetadata::Rsx(
                    RsxFileMetadata {
                        uic: info.uic,
                        protection: info.protection,
                        is_directory: info.is_directory,
                    },
                );
                let mut elements: Vec<String> = Vec::new();
                elements.push(bracket);
                elements.push(name);
                let mut idx_vec: Vec<u32> = Vec::new();
                idx_vec.push(block.index);
                let file = TapeFile {
                    format: TapeFormat::Rsx,
                    path: TapePath::new(elements),
                    size_bytes: block.size as u64,
                    blocks: idx_vec,
                    metadata,
                    children: Vec::new(),
                };
                proof {
                    assert(path_view(file.path) =~= spec_rsx_entry(blocks@[i as int]@).path);
                    assert(file.blocks@ =~= seq![blocks@[i as int]@.index]);
                    assert(files_view(file.children@) =~= Seq::<TapeFileV>::empty());
                    assert(file_view(file) == spec_rsx_entry(blocks@[i as int]@));
                }
                insert_into_tree(&mut tree, file);
            },
            _ => {
                let file = raw_block_entry(block);
                insert_into_tree(&mut tree, file);
            },
        }
        i = i + 1;
    }
    proof {
        assert(bvs.take(n as int) =~= bvs);
    }
    tree
}


/// Files inserted into the tree one after another, in order.
pub open spec fn insert_all(tree: Seq<TapeFileV>, files: Seq<TapeFileV>) -> Seq<TapeFileV>
    decreases files.len(),
{
    if files.len() == 0 {
        tree
    } else {
        spec_insert_into_tree(insert_all(tree, files.drop_last()), files.last())
    }
}

/// The file one RT-11 directory entry contributes: named by its Rad50
/// name and extension under a per-block synthetic directory, sized by
/// its declared length in 512-byte blocks, at least the block's size.
pub open spec fn spec_rt11_entry_file(b: TapeBlockV, e: Rt11EntryV) -> TapeFileV {
    TapeFileV {
        format: TapeFormat::Rt11,
        path: seq![
            "rt11_dir_"@ + dec_digits_min(b.index as nat, 5),
            spec_format_rt11_name(e.name, e.ext),
        ],
        size_bytes: if e.length_blocks * 512 > b.size {
            (e.length_blocks * 512) as u64
        } else {
            b.size as u64
        },
        blocks: seq![b.index],
        metadata: FileMetadataV::Rt11(
            Rt11FileMetadataV {
                start_block: e.start_block,
                length_blocks: e.length_blocks,
                ext: e.ext,
            },
        ),
        children: Seq::empty(),
    }
}

/// The files one block contributes to the RT-11 tree: one per decoded
/// entry, or a raw leaf when the block decodes to nothing.
pub open spec fn spec_rt11_files_of_block(b: TapeBlockV) -> Seq<TapeFileV> {
    if b.classification is Rt11 && rt11_block_valid(b.raw) && spec_parse_rt11(
        b.raw,
    ).entries.len() > 0 {
        spec_parse_rt11(b.raw).entries.map_values(|e: Rt11EntryV| spec_rt11_entry_file(b, e))
    } else {
        seq![spec_raw_block_entry(b)]
    }
}

/// The RT-11 tree built over a block sequence.
pub open spec fn spec_reconstruct_rt11(blocks: Seq<TapeBlockV>) -> Seq<TapeFileV>
    decreases blocks.len(),
{
    if blocks.len() == 0 {
        Seq::empty()
    } else {
        insert_all(
            spec_reconstruct_rt11(blocks.drop_last()),
            spec_rt11_files_of_block(blocks.last()),
        )
    }
}

/// Builds the RT-11 file tree: each decoded directory entry becomes a
/// file under a per-block synthetic directory.
#[verifier::loop_isolation(false)]
#[verifier::rlimit(60)]
pub fn reconstruct_rt11(blocks: &[TapeBlock]) -> (r: Vec<TapeFile>)
    ensures
        files_view(r@) == spec_reconstruct_rt11(blocks@.map_values(|b: TapeBlock| b@)),
{
    let ghost bvs = blocks@.map_values(|b: TapeBlock| b@);
    let mut tree: Vec<TapeFile> = Vec::new();
    let n: usize = blocks.len();
    proof {
        assert(files_view(tree@) =~= Seq::<TapeFileV>::empty());
        assert(bvs.take(0) =~= Seq::<TapeBlockV>::empty());
    }
    let mut i: usize = 0;
    while i < n
        invariant
            i <= n,
            files_view(tree@) == spec_reconstruct_rt11(bvs.take(i as int)),
        decreases n - i,
    {
        let block = &blocks[i];
        let ghost bv = blocks@[i as int]@;
        let ghost tree0 = files_view(tree@);
        proof {
            assert(bvs.take(i + 1).drop_last() =~= bvs.take(i as int));
            assert(bvs.take(i + 1).last() == bv);
        }
        let parsed = parse_classified_block(block);
        let mut used_entries = false;
        match &parsed {
            Some(ParsedBlock::Rt11(info)) => {
                if info.entries.len() > 0 {
                    used_entries = true;
                    let ghost bfiles = spec_rt11_files_of_block(bv);
                    proof {
                        assert(bfiles.take(0) =~= Seq::<TapeFileV>::empty());
                        assert(insert_all(tree0, Seq::<TapeFileV>::empty()) == tree0);
                    }
                    let m: usize = info.entries.len();
                    let mut j: usize = 0;
                    while j < m
                        invariant
                            j <= m,
                            m == info.entries@.len(),
                            info@ == spec_parse_rt11(bv.raw),
                            bv.classification is Rt11,
                            rt11_block_valid(bv.raw),
                            bv == blocks@[i as int]@,
                            i < n,
                            bfiles == spec_rt11_files_of_block(bv),
                            files_view(tree@) == insert_all(tree0, bfiles.take(j as int)),
                        decreases m - j,
                    {
                        let entry = &info.entries[j];
                        let mut dir = String::from_str("rt11_dir_");
                        push_decimal_min(&mut dir, block.index as u64, 5);
                        let name = format_rt11_name(entry.name.as_str(), entry.ext.as_str());
                        let estimated: u64 = (entry.length_blocks as u64) * 512;
                        let bsize: u64 = block.size as u64;
                        let size: u64 = if estimated > bsize {
                            estimated
                        } else {
                            bsize
                        };
                        let metadata = FileMetadata::Rt11(
                            Rt11FileMetadata {
                                start_block: entry.start_block,
                                length_blocks: entry.length_blocks,
                                ext: entry.ext.clone(),
                            },
                        );
                        let mut elements: Vec<String> = Vec::new();
                        elements.push(dir);
                        elements.push(name);
                        let mut idx_vec: Vec<u32> = Vec::new();
                        idx_vec.push(block.index);
                        let file = TapeFile {
                            format: TapeFormat::Rt11,
                            path: TapePath::new(elements),
                            size_bytes: size,
                            blocks: idx_vec,
                            metadata,
                            children: Vec::new(),
                        };
                        proof {
                            assert(info.entries@.map_values(|e: Rt11Entry| e@)[j as int]
                                == info.entries@[j as int]@);
                            assert(path_view(file.path) =~= spec_rt11_entry_file(
                                bv,
                                info.entries@[j as int]@,
                            ).path);
                            assert(file.blocks@ =~= seq![bv.index]);
                            assert(files_view(file.children@) =~= Seq::<TapeFileV>::empty());
                            assert(file_view(file) == spec_rt11_entry_file(
                                bv,
                                info.entries@[j as int]@,
                            ));
                            assert(bfiles[j as int] == spec_rt11_entry_file(
                                bv,
                                info.entries@[j as int]@,
                            ));
                        }
                        insert_into_tree(&mut tree, file);
                        j = j + 1;
                        proof {
                            assert(bfiles.take(j as int).drop_last() =~= bfiles.take(j - 1));
                            assert(bfiles.take(j as int).last() == bfiles[j - 1]);
                        }
                    }
                    proof {
                        assert(bfiles.take(m as int) =~= bfiles);
                        assert(files_view(tree@) =~= spec_reconstruct_rt11(bvs.take(i + 1)));
                    }
                }
            },
            _ => {},
        }
        if !used_entries {
            let file = raw_block_entry(block);
            insert_into_tree(&mut tree, file);
            proof {
                assert(spec_rt11_files_of_block(bv) =~= seq![spec_raw_block_entry(bv)]);
                assert(seq![spec_raw_block_entry(bv)].drop_last() =~= Seq::<TapeFileV>::empty());
                assert(insert_all(tree0, Seq::<TapeFileV>::empty()) == tree0);
                assert(insert_all(tree0, seq![spec_raw_block_entry(bv)])
                    == spec_insert_into_tree(tree0, spec_raw_block_entry(bv)));
                assert(files_view(tree@) =~= spec_reconstruct_rt11(bvs.take(i + 1)));
            }
        }
        i = i + 1;
    }
    proof {
        assert(bvs.take(n as int) =~= bvs);
    }
    tree
}

/// The file one RSTS directory entry contributes: named by its Rad50
/// name or the block index under its UIC bracket, sized by its declared
/// block count.
pub open spec fn spec_rsts_entry_file(b: TapeBlockV, e: RstsEntryV) -> TapeFileV {
    TapeFileV {
        format: TapeFormat::Rsts,
        path: seq![
            spec_uic_bracket(e.owner_uic),
            if e.name.len() == 0 {
                "entry_"@ + dec_digits_min(b.index as nat, 5)
            } else {
                e.name
            },
        ],
        size_bytes: (e.blocks * 512) as u64,
        blocks: seq![b.index],
        metadata: FileMetadataV::Rsts(
            RstsFileMetadata { owner_uic: e.owner_uic, blocks: e.blocks, status: e.status },
        ),
        children: Seq::empty(),
    }
}

/// The files one block contributes to the RSTS tree: one per decoded
/// entry, or a raw leaf when the block decodes to nothing.
pub open spec fn spec_rsts_files_of_block(b: TapeBlockV) -> Seq<TapeFileV> {
    if b.classification is Rsts && rsts_block_valid(b.raw) && spec_parse_rsts(
        b.raw,
    ).entries.len() > 0 {
        spec_parse_rsts(b.raw).entries.map_values(|e: RstsEntryV| spec_rsts_entry_file(b, e))
    } else {
        seq![spec_raw_block_entry(b)]
    }
}

/// The RSTS tree built over a block sequence.
pub open spec fn spec_reconstruct_rsts(blocks: Seq<TapeBlockV>) -> Seq<TapeFileV>
    decreases blocks.len(),
{
    if blocks.len() == 0 {
        Seq::empty()
    } else {
        insert_all(
            spec_reconstruct_rsts(blocks.drop_last()),
            spec_rsts_files_of_block(blocks.last()),
        )
    }
}

/// Builds the RSTS file tree: each decoded directory entry becomes a
/// file under its owner's UIC bracket.
#[verifier::loop_isolation(false)]
#[verifier::rlimit(60)]
pub fn reconstruct_rsts(blocks: &[TapeBlock]) -> (r: Vec<TapeFile>)
    ensures
        files_view(r@) == spec_reconstruct_rsts(blocks@.map_values(|b: TapeBlock| b@)),
{
    let ghost bvs = blocks@.map_values(|b: TapeBlock| b@);
    let mut tree: Vec<TapeFile> = Vec::new();
    let n: usize = blocks.len();
    proof {
        assert(files_view(tree@) =~= Seq::<TapeFileV>::empty());
        assert(bvs.take(0) =~= Seq::<TapeBlockV>::empty());
    }
    let mut i: usize = 0;
    while i < n
        invariant
            i <= n,
            files_view(tree@) == spec_reconstruct_rsts(bvs.take(i as int)),
        decreases n - i,
    {
        let block = &blocks[i];
        let ghost bv = blocks@[i as int]@;
        let ghost tree0 = files_view(tree@);
        proof {
            assert(bvs.take(i + 1).drop_last() =~= bvs.take(i as int));
            assert(bvs.take(i + 1).last() == bv);
        }
        let parsed = parse_classified_block(block);
        let mut used_entries = false;
        match &parsed {
            Some(ParsedBlock::Rsts(info)) => {
                if info.entries.len() > 0 {
                    used_entries = true;
                    let ghost bfiles = spec_rsts_files_of_block(bv);
                    proof {
                        assert(bfiles.take(0) =~= Seq::<TapeFileV>::empty());
                        assert(insert_all(tree0, Seq::<TapeFileV>::empty()) == tree0);
                    }
                    let m: usize = info.entries.len();
                    let mut j: usize = 0;
                    while j < m
                        invariant
                            j <= m,
                            m == info.entries@.len(),
                            info@ == spec_parse_rsts(bv.raw),
                            bv.classification is Rsts,
                            rsts_block_valid(bv.raw),
                            bv == blocks@[i as int]@,
                            i < n,
                            bfiles == spec_rsts_files_of_block(bv),
                            files_view(tree@) == insert_all(tree0, bfiles.take(j as int)),
                        decreases m - j,
                    {
                        let entry = &info.entries[j];
                        let bracket = uic_bracket(entry.owner_uic);
                        let name: String = if entry.name.as_str().is_empty() {
                            let mut s = String::from_str("entry_");
                            push_decimal_min(&mut s, block.index as u64, 5);
                            s
                        } else {
                            entry.name.clone()
                        };
                        let size: u64 = (entry.blocks as u64) * 512;
                        let metadata = FileMetadata::Rsts(
                            RstsFileMetadata {
                                owner_uic: entry.owner_uic,
                                blocks: entry.blocks,
                                status: entry.status,
                            },
                        );
                        let mut elements: Vec<String> = Vec::new();
                        elements.push(bracket);
                        elements.push(name);
                        let mut idx_vec: Vec<u32> = Vec::new();
                        idx_vec.push(block.index);
                        let file = TapeFile {
                            format: TapeFormat::Rsts,
                            path: TapePath::new(elements),
                            size_bytes: size,
                            blocks: idx_vec,
                            metadata,
                            children: Vec::new(),
                        };
                        proof {
                            assert(info.entries@.map_values(|e: RstsEntry| e@)[j as int]
                                == info.entries@[j as int]@);
                            assert(path_view(file.path) =~= spec_rsts_entry_file(
                                bv,
                                info.entries@[j as int]@,
                            ).path);
                            assert(file.blocks@ =~= seq![bv.index]);
                            assert(files_view(file.children@) =~= Seq::<TapeFileV>::empty());
                            assert(file_view(file) == spec_rsts_entry_file(
                                bv,
                                info.entries@[j as int]@,
                            ));
                            assert(bfiles[j as int] == spec_rsts_entry_file(
                                bv,
                                info.entries@[j as int]@,
                            ));
                        }
                        insert_into_tree(&mut tree, file);
                        j = j + 1;
                        proof {
                            assert(bfiles.take(j as int).drop_last() =~= bfiles.take(j - 1));
                            assert(bfiles.take(j as int).last() == bfiles[j - 1]);
                        }
                    }
                    proof {
                        assert(bfiles.take(m as int) =~= bfiles);
                        assert(files_view(tree@) =~= spec_reconstruct_rsts(bvs.take(i + 1)));
                    }
                }
            },
            _ => {},
        }
        if !used_entries {
            let file = raw_block_entry(block);
            insert_into_tree(&mut tree, file);
            proof {
                assert(spec_rsts_files_of_block(bv) =~= seq![spec_raw_block_entry(bv)]);
                assert(seq![spec_raw_block_entry(bv)].drop_last() =~= Seq::<TapeFileV>::empty());
                assert(insert_all(tree0, Seq::<TapeFileV>::empty()) == tree0);
                assert(insert_all(tree0, seq![spec_raw_block_entry(bv)])
                    == spec_insert_into_tree(tree0, spec_raw_block_entry(bv)));
                assert(files_view(tree@) =~= spec_reconstruct_rsts(bvs.take(i + 1)));
            }
        }
        i = i + 1;
    }
    proof {
        assert(bvs.take(n as int) =~= bvs);
    }
    tree
}

} // verus!
