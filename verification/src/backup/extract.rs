//! Assembles decoded save-set blocks into file structures and a
//! directory tree.
//!
//! A single forward pass keeps one open group: a pending file header,
//! the data blocks that followed it, and the ambient directory set by
//! the latest directory record.
use vstd::prelude::*;

use crate::backup::vms::{
    dir_record_valid, fh2_record_valid, parse_directory_record, parse_fh2_record,
    parse_xh2_record, spec_dir_record_path, spec_full_name, spec_parse_fh2_record,
    spec_parse_xh2_record, xh2_record_valid, BackupBlock, BackupBlockV, VmsFileHeader,
    VmsFileHeaderV,
};
use crate::tap::legacy::{TapDataKind, TapDataKindV, TapEntry, TapEntryV};
use crate::utils::bytes::copy_range;
use crate::utils::fmt::{dec_digits, push_decimal};

verus! {

broadcast use vstd::std_specs::vec::group_vec_axioms;

/// A file assembled from consecutive save-set blocks.
#[derive(Debug, Clone, PartialEq, Eq)]
pub struct ExtractedFile {
    pub name: String,
    pub blocks: Vec<BackupBlock>,
}

/// Mathematical model of an assembled file.
pub struct ExtractedFileV {
    pub name: Seq<char>,
    pub blocks: Seq<BackupBlockV>,
}

impl View for ExtractedFile {
    type V = ExtractedFileV;

    open spec fn view(&self) -> ExtractedFileV {
        ExtractedFileV {
            name: self.name@,
            blocks: self.blocks@.map_values(|b: BackupBlock| b@),
        }
    }
}

/// The payload bytes of a block sequence, concatenated in order.
pub open spec fn concat_payloads(blocks: Seq<BackupBlockV>) -> Seq<u8>
    decreases blocks.len(),
{
    if blocks.len() == 0 {
        Seq::empty()
    } else {
        concat_payloads(blocks.drop_last()) + blocks.last().payload
    }
}

impl ExtractedFile {
    /// Concatenates the payload bytes of all blocks, in block order.
    #[verifier::loop_isolation(false)]
    pub fn payload(&self) -> (r: Vec<u8>)
        ensures
            r@ == concat_payloads(self@.blocks),
    {
        let mut data: Vec<u8> = Vec::new();
        let n: usize = self.blocks.len();
        let mut i: usize = 0;
        while i < n
            invariant
                i <= n,
                data@ == concat_payloads(self@.blocks.take(i as int)),
            decreases n - i,
        {
            data.extend_from_slice(self.blocks[i].payload.as_slice());
            i = i + 1;
            proof {
                assert(self@.blocks.take(i as int).drop_last() =~= self@.blocks.take(i - 1));
                assert(self@.blocks.take(i as int).last() == self.blocks@[i - 1]@);
            }
        }
        proof {
            assert(self@.blocks.take(n as int) =~= self@.blocks);
        }
        data
    }
}

impl BackupBlock {
    /// An owned copy of this block.
    pub fn duplicate(&self) -> (r: BackupBlock)
        ensures
            r@ == self@,
    {
        let len: usize = self.payload.len();
        let payload = copy_range(self.payload.as_slice(), 0, len);
        proof {
            assert(payload@ =~= self.payload@);
        }
        BackupBlock {
            block_size: self.block_size,
            format_version: self.format_version,
            phase: self.phase,
            sequence_number: self.sequence_number,
            checksum: self.checksum,
            payload,
        }
    }
}

/// A file assembled from file-header records and their data blocks.
#[derive(Debug, Clone, PartialEq, Eq)]
pub struct VmsFile {
    pub name: String,
    pub path: String,
    pub headers: VmsFileHeader,
    pub blocks: Vec<BackupBlock>,
}

/// Mathematical model of an assembled header-based file.
pub struct VmsFileV {
    pub name: Seq<char>,
    pub path: Seq<char>,
    pub headers: VmsFileHeaderV,
    pub blocks: Seq<BackupBlockV>,
}

impl View for VmsFile {
    type V = VmsFileV;

    open spec fn view(&self) -> VmsFileV {
        VmsFileV {
            name: self.name@,
            path: self.path@,
            headers: self.headers@,
            blocks: self.blocks@.map_values(|b: BackupBlock| b@),
        }
    }
}

/// The save-set blocks among a sequence of framed records, in order.
pub open spec fn vms_blocks_of(entries: Seq<TapEntryV>) -> Seq<BackupBlockV>
    decreases entries.len(),
{
    if entries.len() == 0 {
        Seq::empty()
    } else {
        vms_blocks_of(entries.drop_last()) + (match entries.last().kind {
            TapDataKindV::VmsBlock(b) => seq![b],
            TapDataKindV::Raw(_) => Seq::empty(),
        })
    }
}

/// The state of the assembly pass: files closed so far, the open file
/// header with its data blocks, and the ambient directory prefix.
pub struct AsmState {
    pub files: Seq<VmsFileV>,
    pub header: Option<VmsFileHeaderV>,
    pub blocks: Seq<BackupBlockV>,
    pub dir: Seq<char>,
}

/// The assembly state before any block is seen.
pub open spec fn asm_init() -> AsmState {
    AsmState { files: Seq::empty(), header: None, blocks: Seq::empty(), dir: Seq::empty() }
}

/// Closes the open group, if any: the pending header and its blocks
/// become a file whose path is the ambient directory prefix followed by
/// the header's full name.
pub open spec fn asm_close(st: AsmState) -> AsmState {
    match st.header {
        Some(h) => AsmState {
            files: st.files.push(
                VmsFileV {
                    name: spec_full_name(h),
                    path: if st.dir.len() == 0 {
                        spec_full_name(h)
                    } else {
                        st.dir + spec_full_name(h)
                    },
                    headers: h,
                    blocks: st.blocks,
                },
            ),
            header: None,
            blocks: Seq::empty(),
            dir: st.dir,
        },
        None => st,
    }
}

/// One step of the assembly pass, for one save-set block: a directory
/// record replaces the ambient prefix; a file-header record closes the
/// open group and opens a new one; an extended-header record attaches to
/// the open header; anything else is a data block of the open group, or
/// is dropped when no group is open.
pub open spec fn asm_step(st: AsmState, b: BackupBlockV) -> AsmState {
    let p = b.payload;
    if dir_record_valid(p) {
        AsmState { dir: spec_dir_record_path(p), ..st }
    } else if p.len() > 0 && p[0] == 2 {
        let st1 = asm_close(st);
        AsmState {
            header: if fh2_record_valid(p) {
                Some(spec_parse_fh2_record(p))
            } else {
                None
            },
            ..st1
        }
    } else if p.len() > 0 && p[0] == 12 {
        AsmState {
            header: match st.header {
                Some(h) => if xh2_record_valid(p) {
                    Some(VmsFileHeaderV { extended: Some(spec_parse_xh2_record(p)), ..h })
                } else {
                    None
                },
                None => None,
            },
            ..st
        }
    } else {
        match st.header {
            Some(_) => AsmState { blocks: st.blocks.push(b), ..st },
            None => st,
        }
    }
}

/// The assembly state after a sequence of save-set blocks.
pub open spec fn asm_fold(blocks: Seq<BackupBlockV>) -> AsmState
    decreases blocks.len(),
{
    if blocks.len() == 0 {
        asm_init()
    } else {
        asm_step(asm_fold(blocks.drop_last()), blocks.last())
    }
}

/// The files assembled from the save-set blocks of a record sequence,
/// with the group left open at the end flushed.
pub open spec fn spec_assemble_vms_files(entries: Seq<TapEntryV>) -> Seq<VmsFileV> {
    asm_close(asm_fold(vms_blocks_of(entries))).files
}

proof fn lemma_map_vmsfile_push(s: Seq<VmsFile>, x: VmsFile)
    ensures
        s.push(x).map_values(|f: VmsFile| f@) =~= s.map_values(|f: VmsFile| f@).push(x@),
{
}

proof fn lemma_map_block_push(s: Seq<BackupBlock>, x: BackupBlock)
    ensures
        s.push(x).map_values(|b: BackupBlock| b@) =~= s.map_values(|b: BackupBlock| b@).push(x@),
{
}

/// The optional header's model.
pub open spec fn header_opt_view(h: Option<VmsFileHeader>) -> Option<VmsFileHeaderV> {
    match h {
        Some(x) => Some(x@),
        None => None,
    }
}

/// Builds files from file-header records and their following data
/// blocks, applying the ambient directory prefix to each finalised file.
#[verifier::rlimit(100)]
pub fn assemble_vms_files(entries: &[TapEntry]) -> (r: Vec<VmsFile>)
    ensures
        r@.map_values(|f: VmsFile| f@) == spec_assemble_vms_files(
            entries@.map_values(|e: TapEntry| e@),
        ),
{
    let n: usize = entries.len();
    let mut files: Vec<VmsFile> = Vec::new();
    let mut current_header: Option<VmsFileHeader> = None;
    let mut current_blocks: Vec<BackupBlock> = Vec::new();
    let mut current_dir: String = String::new();

    let ghost evs = entries@.map_values(|e: TapEntry| e@);
    proof {
        assert(evs.take(0) =~= Seq::<TapEntryV>::empty());
        assert(files@.map_values(|f: VmsFile| f@) =~= Seq::<VmsFileV>::empty());
        assert(current_blocks@.map_values(|b: BackupBlock| b@) =~= Seq::<BackupBlockV>::empty());
        assert(current_dir@ =~= Seq::<char>::empty());
    }
    let mut i: usize = 0;
    while i < n
        invariant
            i <= n,
            n == entries@.len(),
            evs == entries@.map_values(|e: TapEntry| e@),
            (AsmState {
                files: files@.map_values(|f: VmsFile| f@),
                header: header_opt_view(current_header),
                blocks: current_blocks@.map_values(|b: BackupBlock| b@),
                dir: current_dir@,
            }) == asm_fold(vms_blocks_of(evs.take(i as int))),
        decreases n - i,
    {
        let ghost st0 = asm_fold(vms_blocks_of(evs.take(i as int)));
        proof {
            assert(evs.take(i + 1).drop_last() =~= evs.take(i as int));
            assert(evs.take(i + 1).last() == entries@[i as int]@);
            if entries@[i as int]@.kind is Raw {
                assert(vms_blocks_of(evs.take(i + 1)) =~= vms_blocks_of(evs.take(i as int)));
            } else {
                assert(vms_blocks_of(evs.take(i + 1)) =~= vms_blocks_of(
                    evs.take(i as int),
                ).push(entries@[i as int]@.kind->VmsBlock_0));
                assert(vms_blocks_of(evs.take(i + 1)).drop_last() =~= vms_blocks_of(
                    evs.take(i as int),
                ));
            }
        }
        let block: BackupBlock = match &entries[i].kind {
            TapDataKind::VmsBlock(b) => b.duplicate(),
            TapDataKind::Raw(_) => {
                i = i + 1;
                continue ;
            },
        };
        let ghost bv = block@;

        if let Some(dir) = parse_directory_record(block.payload.as_slice()) {
            current_dir = dir;
            i = i + 1;
            continue ;
        }

        if block.payload.len() > 0 && block.payload[0] == 2 {
            if let Some(header) = current_header {
                let ghost files0 = files@;
                let full = header.full_name();
                let path: String = if current_dir.as_str().is_empty() {
                    let mut p = String::new();
                    p.append(full.as_str());
                    p
                } else {
                    let mut p = String::new();
                    p.append(current_dir.as_str());
                    p.append(full.as_str());
                    p
                };
                let pushed = VmsFile { name: full, path, headers: header, blocks: current_blocks };
                proof {
                    lemma_map_vmsfile_push(files0, pushed);
                    assert(pushed@ == asm_close(st0).files.last());
                }
                files.push(pushed);
                current_blocks = Vec::new();
                proof {
                    assert(current_blocks@.map_values(|b: BackupBlock| b@) =~= Seq::<
                        BackupBlockV,
                    >::empty());
                    assert(files@.map_values(|f: VmsFile| f@) =~= asm_close(st0).files);
                }
            }
            current_header = None;
            match parse_fh2_record(block.payload.as_slice()) {
                Ok(h) => {
                    current_header = Some(h);
                },
                Err(_) => {},
            }
            proof {
                assert(asm_fold(vms_blocks_of(evs.take(i + 1))) == asm_step(st0, bv));
            }
            i = i + 1;
            continue ;
        }

        if block.payload.len() > 0 && block.payload[0] == 12 {
            let taken = current_header;
            current_header = None;
            match (taken, parse_xh2_record(block.payload.as_slice())) {
                (Some(header), Ok(xh2)) => {
                    let updated = VmsFileHeader { extended: Some(xh2), ..header };
                    current_header = Some(updated);
                },
                _ => {},
            }
            i = i + 1;
            continue ;
        }

        if current_header.is_some() {
            proof {
                lemma_map_block_push(current_blocks@, block);
            }
            current_blocks.push(block);
        }
        i = i + 1;
    }
    proof {
        assert(evs.take(n as int) =~= evs);
    }

    if let Some(header) = current_header {
        let ghost files0 = files@;
        let ghost stf = asm_fold(vms_blocks_of(evs));
        let full = header.full_name();
        let path: String = if current_dir.as_str().is_empty() {
            let mut p = String::new();
            p.append(full.as_str());
            p
        } else {
            let mut p = String::new();
            p.append(current_dir.as_str());
            p.append(full.as_str());
            p
        };
        let pushed = VmsFile { name: full, path, headers: header, blocks: current_blocks };
        proof {
            lemma_map_vmsfile_push(files0, pushed);
            assert(pushed@ == asm_close(stf).files.last());
            assert(files0.map_values(|f: VmsFile| f@).push(pushed@) =~= asm_close(stf).files);
        }
        files.push(pushed);
    }
    files
}


/// A named node of the reconstructed directory tree.
#[derive(Debug, Default)]
pub struct DirectoryNode {
    pub name: String,
    pub path: String,
    pub children: Vec<DirectoryNode>,
    pub files: Vec<String>,
}

/// Mathematical model of a directory node.
pub struct DirectoryNodeV {
    pub name: Seq<char>,
    pub path: Seq<char>,
    pub children: Seq<DirectoryNodeV>,
    pub files: Seq<Seq<char>>,
}

/// The models of a sequence of directory nodes.
pub open spec fn nodes_view(cs: Seq<DirectoryNode>) -> Seq<DirectoryNodeV>
    decreases cs,
{
    if cs.len() == 0 {
        Seq::empty()
    } else {
        nodes_view(cs.drop_last()).push(node_view(cs.last()))
    }
}

/// The model of a directory node, children included.
pub open spec fn node_view(n: DirectoryNode) -> DirectoryNodeV
    decreases n,
{
    DirectoryNodeV {
        name: n.name@,
        path: n.path@,
        children: nodes_view(n.children@),
        files: n.files@.map_values(|f: String| f@),
    }
}

/// Each node of a sequence is modelled in place.
pub proof fn lemma_nodes_view(cs: Seq<DirectoryNode>)
    ensures
        nodes_view(cs).len() == cs.len(),
        forall|i: int| 0 <= i < cs.len() ==> nodes_view(cs)[i] == node_view(#[trigger] cs[i]),
    decreases cs,
{
    if cs.len() > 0 {
        lemma_nodes_view(cs.drop_last());
        assert forall|i: int| 0 <= i < cs.len() implies nodes_view(cs)[i] == node_view(
            #[trigger] cs[i],
        ) by {
            if i < cs.len() - 1 {
                assert(cs.drop_last()[i] == cs[i]);
                assert(nodes_view(cs)[i] == nodes_view(cs.drop_last())[i]);
            }
        }
    }
}

/// The reconstructed file system: one root directory node.
#[derive(Debug, Default)]
pub struct VmsFileSystem {
    pub root: DirectoryNode,
}

/// A directory node with no children and no files.
pub open spec fn empty_node(name: Seq<char>, path: Seq<char>) -> DirectoryNodeV {
    DirectoryNodeV { name: name, path: path, children: Seq::empty(), files: Seq::empty() }
}

/// The index of the first child with the given name at or after `i`,
/// or -1 when there is none.
pub open spec fn child_index(cs: Seq<DirectoryNodeV>, nm: Seq<char>, i: int) -> int
    decreases cs.len() - i,
{
    if i < 0 || i >= cs.len() {
        -1
    } else if cs[i].name == nm {
        i
    } else {
        child_index(cs, nm, i + 1)
    }
}

/// Insertion of a file into the tree: each non-final, non-empty path
/// segment selects the first child directory of that name, created when
/// missing with a path accumulated from the segments walked; the file
/// name is appended at the node the last segment leads to.
pub open spec fn spec_insert(
    n: DirectoryNodeV,
    parts: Seq<Seq<char>>,
    k: int,
    cur: Seq<char>,
    name: Seq<char>,
) -> DirectoryNodeV
    decreases parts.len() - k,
{
    if k < 0 || k >= parts.len() - 1 {
        DirectoryNodeV { files: n.files.push(name), ..n }
    } else if parts[k].len() == 0 {
        spec_insert(n, parts, k + 1, cur, name)
    } else {
        let newpath = cur + parts[k] + seq!['/'];
        let j = child_index(n.children, parts[k], 0);
        if 0 <= j < n.children.len() {
            DirectoryNodeV {
                children: n.children.update(
                    j,
                    spec_insert(n.children[j], parts, k + 1, newpath, name),
                ),
                ..n
            }
        } else {
            DirectoryNodeV {
                children: n.children.push(
                    spec_insert(empty_node(parts[k], newpath), parts, k + 1, newpath, name),
                ),
                ..n
            }
        }
    }
}

/// `s` with leading and trailing slashes removed.
pub open spec fn trim_slashes(s: Seq<char>) -> Seq<char> {
    let lo = crate::utils::chars::ltrim_any(s, '/', 0);
    let hi = crate::utils::chars::rtrim_any(s, '/', s.len() as int);
    if lo <= hi {
        s.subrange(lo, hi)
    } else {
        Seq::empty()
    }
}

/// The path segments a file path contributes to tree insertion.
pub open spec fn path_parts(path: Seq<char>) -> Seq<Seq<char>> {
    crate::utils::chars::split_by(trim_slashes(path), '/', 0)
}

fn insert_rec(node: &mut DirectoryNode, parts: &Vec<String>, k: usize, cur: String, name: String)
    requires
        k <= parts@.len(),
    ensures
        node_view(*final(node)) == spec_insert(
            node_view(*old(node)),
            parts@.map_values(|p: String| p@),
            k as int,
            cur@,
            name@,
        ),
    decreases parts@.len() - k,
{
    let ghost pv = parts@.map_values(|p: String| p@);
    let nparts: usize = parts.len();
    if nparts == 0 || k >= nparts - 1 {
        node.files.push(name);
        proof {
            assert(node_view(*node).files =~= node_view(*old(node)).files.push(name@));
            assert(node_view(*node).children =~= node_view(*old(node)).children);
            assert(node_view(*node) == spec_insert(node_view(*old(node)), pv, k as int, cur@, name@));
        }
        return ;
    }
    let part: &String = &parts[k];
    if part.as_str().is_empty() {
        insert_rec(node, parts, k + 1, cur, name);
        return ;
    }
    let mut newpath = cur;
    newpath.append(part.as_str());
    newpath.append("/");
    proof {
        reveal_strlit("/");
        assert(newpath@ =~= cur@ + pv[k as int] + seq!['/']);
    }

    let ghost old_node = *node;
    let nchildren: usize = node.children.len();
    proof {
        lemma_nodes_view(node.children@);
    }
    let mut j: usize = 0;
    let mut found: bool = false;
    while j < nchildren
        invariant_except_break
            !found,
        invariant
            j <= nchildren,
            nchildren == node.children@.len(),
            node_view(*node).children.len() == nchildren,
            *node == old_node,
            pv == parts@.map_values(|p: String| p@),
            k < parts@.len(),
            part@ == pv[k as int],
            child_index(node_view(*node).children, pv[k as int], 0) == child_index(
                node_view(*node).children,
                pv[k as int],
                j as int,
            ),
        ensures
            *node == old_node,
            nchildren == node.children@.len(),
            found ==> j < nchildren && child_index(node_view(*node).children, pv[k as int], 0)
                == j,
            !found ==> child_index(node_view(*node).children, pv[k as int], 0) == -1,
        decreases nchildren - j,
    {
        proof {
            lemma_nodes_view(node.children@);
            assert(node_view(*node).children[j as int] == node_view(node.children@[j as int]));
        }
        if crate::utils::chars::str_eq(node.children[j].name.as_str(), part.as_str()) {
            found = true;
            proof {
                assert(node.children@[j as int].name@ == parts@[k as int]@);
                assert(pv[k as int] == parts@[k as int]@);
                assert(node_view(*node).children[j as int].name == pv[k as int]);
                assert(node_view(*node).children.len() == nchildren);
                assert(child_index(node_view(*node).children, pv[k as int], j as int) == j);
            }
            break ;
        }
        proof {
            assert(node.children@[j as int].name@ != parts@[k as int]@);
            assert(node_view(*node).children[j as int].name != pv[k as int]);
            assert(node_view(*node).children.len() == nchildren);
            assert(child_index(node_view(*node).children, pv[k as int], j as int) == child_index(
                node_view(*node).children,
                pv[k as int],
                j + 1,
            ));
        }
        j = j + 1;
    }

    if found {
        let child: &mut DirectoryNode = &mut node.children[j];
        insert_rec(child, parts, k + 1, newpath, name);
        proof {
            let ov = node_view(old_node);
            lemma_nodes_view(old_node.children@);
            lemma_nodes_view(node.children@);
            let want = ov.children.update(
                j as int,
                spec_insert(ov.children[j as int], pv, k + 1, newpath@, name@),
            );
            assert(node.children@ == old_node.children@.update(j as int, node.children@[j as int]));
            assert forall|i: int| 0 <= i < node.children@.len() implies node_view(
                *node,
            ).children[i] == want[i] by {
                assert(node_view(*node).children[i] == node_view(node.children@[i]));
                if i != j {
                    assert(node.children@[i] == old_node.children@[i]);
                    assert(ov.children[i] == node_view(old_node.children@[i]));
                } else {
                    assert(node_view(node.children@[j as int]) == spec_insert(
                        node_view(old_node.children@[j as int]),
                        pv,
                        k + 1,
                        newpath@,
                        name@,
                    ));
                    assert(ov.children[j as int] == node_view(old_node.children@[j as int]));
                }
            }
            assert(node_view(*node).children =~= want);
            assert(node_view(*node).files =~= ov.files);
            assert(node_view(*node) == spec_insert(ov, pv, k as int, cur@, name@));
        }
    } else {
        let fresh = DirectoryNode {
            name: part.clone(),
            path: newpath.clone(),
            children: Vec::new(),
            files: Vec::new(),
        };
        proof {
            assert(node_view(fresh).children =~= Seq::<DirectoryNodeV>::empty());
            assert(node_view(fresh).files =~= Seq::<Seq<char>>::empty());
            assert(node_view(fresh) == empty_node(pv[k as int], newpath@));
        }
        let ghost fresh_v = node_view(fresh);
        node.children.push(fresh);
        let idx: usize = node.children.len() - 1;
        let child: &mut DirectoryNode = &mut node.children[idx];
        insert_rec(child, parts, k + 1, newpath, name);
        proof {
            let ov = node_view(old_node);
            lemma_nodes_view(old_node.children@);
            lemma_nodes_view(node.children@);
            let inserted = spec_insert(
                empty_node(pv[k as int], newpath@),
                pv,
                k + 1,
                newpath@,
                name@,
            );
            let want = ov.children.push(inserted);
            assert(node.children@ == old_node.children@.push(fresh).update(
                idx as int,
                node.children@[idx as int],
            ));
            assert forall|i: int| 0 <= i < node.children@.len() implies node_view(
                *node,
            ).children[i] == want[i] by {
                assert(node_view(*node).children[i] == node_view(node.children@[i]));
                if i != idx {
                    assert(node.children@[i] == old_node.children@[i]);
                    assert(ov.children[i] == node_view(old_node.children@[i]));
                } else {
                    assert(node_view(node.children@[idx as int]) == spec_insert(
                        fresh_v,
                        pv,
                        k + 1,
                        newpath@,
                        name@,
                    ));
                }
            }
            assert(node_view(*node).children =~= want);
            assert(node_view(*node).files =~= ov.files);
            assert(node_view(*node) == spec_insert(ov, pv, k as int, cur@, name@));
        }
    }
}

/// Inserts one file into the tree under its `/`-delimited path.
pub fn insert_file(root: &mut DirectoryNode, path: &str, name: String)
    ensures
        node_view(*final(root)) == spec_insert(
            node_view(*old(root)),
            path_parts(path@),
            0,
            "/"@,
            name@,
        ),
{
    let pv = crate::utils::chars::chars_of(path);
    let trimmed = crate::utils::chars::trim_any(pv.as_slice(), '/');
    let parts: Vec<String> = crate::utils::chars::split_chars(trimmed.as_slice(), '/');
    let cur = String::from_str("/");
    insert_rec(root, &parts, 0, cur, name);
}

/// Builds a directory tree from assembled files: each file is inserted
/// under its path, its non-final segments becoming directories.
#[verifier::loop_isolation(false)]
pub fn build_directory_tree(files: &[VmsFile]) -> (r: VmsFileSystem)
    ensures
        node_view(r.root) == spec_build_tree(files@.map_values(|f: VmsFile| f@)),
{
    let mut root = DirectoryNode {
        name: String::from_str("/"),
        path: String::from_str("/"),
        children: Vec::new(),
        files: Vec::new(),
    };
    proof {
        assert(node_view(root).children =~= Seq::<DirectoryNodeV>::empty());
        assert(node_view(root).files =~= Seq::<Seq<char>>::empty());
        assert(node_view(root) == empty_node("/"@, "/"@));
    }
    let n: usize = files.len();
    let mut i: usize = 0;
    while i < n
        invariant
            i <= n,
            node_view(root) == spec_build_tree_upto(files@.map_values(|f: VmsFile| f@), i as int),
        decreases n - i,
    {
        let file = &files[i];
        let name = file.name.clone();
        insert_file(&mut root, file.path.as_str(), name);
        i = i + 1;
        proof {
            let fvs = files@.map_values(|f: VmsFile| f@);
            assert(node_view(root) == spec_build_tree_upto(fvs, i as int));
        }
    }
    VmsFileSystem { root }
}

/// The tree after the first `k` files are inserted.
pub open spec fn spec_build_tree_upto(files: Seq<VmsFileV>, k: int) -> DirectoryNodeV
    decreases k,
{
    if k <= 0 {
        empty_node("/"@, "/"@)
    } else {
        spec_insert(
            spec_build_tree_upto(files, k - 1),
            path_parts(files[k - 1].path),
            0,
            "/"@,
            files[k - 1].name,
        )
    }
}

/// The tree with every assembled file inserted, in order.
pub open spec fn spec_build_tree(files: Seq<VmsFileV>) -> DirectoryNodeV {
    spec_build_tree_upto(files, files.len() as int)
}


/// The name given to the file with `idx` files before it.
pub open spec fn numbered_name(idx: int) -> Seq<char> {
    "file_"@ + dec_digits(idx as nat)
}

/// The state of the legacy grouping pass: finished files and the blocks
/// of the group being collected.
pub struct LegacyState {
    pub files: Seq<ExtractedFileV>,
    pub current: Seq<BackupBlockV>,
}

/// One step of the legacy grouping pass: a new group starts when the
/// sequence number does not increase or resets to 1; the finished group
/// becomes a numbered file.
pub open spec fn legacy_step(st: LegacyState, b: BackupBlockV) -> LegacyState {
    let start_new = st.current.len() > 0 && (b.sequence_number
        <= st.current.last().sequence_number || b.sequence_number == 1);
    if start_new {
        LegacyState {
            files: st.files.push(
                ExtractedFileV { name: numbered_name(st.files.len() as int), blocks: st.current },
            ),
            current: seq![b],
        }
    } else {
        LegacyState { files: st.files, current: st.current.push(b) }
    }
}

/// The grouping state after a sequence of save-set blocks.
pub open spec fn legacy_fold(blocks: Seq<BackupBlockV>) -> LegacyState
    decreases blocks.len(),
{
    if blocks.len() == 0 {
        LegacyState { files: Seq::empty(), current: Seq::empty() }
    } else {
        legacy_step(legacy_fold(blocks.drop_last()), blocks.last())
    }
}

/// The files of the legacy grouping pass, the open group flushed.
pub open spec fn legacy_files(blocks: Seq<BackupBlockV>) -> Seq<ExtractedFileV> {
    let st = legacy_fold(blocks);
    if st.current.len() > 0 {
        st.files.push(
            ExtractedFileV { name: numbered_name(st.files.len() as int), blocks: st.current },
        )
    } else {
        st.files
    }
}

/// The assembled files of a record sequence: the header-based files when
/// there are any (nameless ones numbered by position), else the legacy
/// groups split on sequence-number resets.
pub open spec fn spec_assemble_files(entries: Seq<TapEntryV>) -> Seq<ExtractedFileV> {
    let vms = spec_assemble_vms_files(entries);
    if vms.len() > 0 {
        Seq::new(
            vms.len(),
            |i: int|
                ExtractedFileV {
                    name: if vms[i].name.len() == 0 {
                        numbered_name(i)
                    } else {
                        vms[i].name
                    },
                    blocks: vms[i].blocks,
                },
        )
    } else {
        legacy_files(vms_blocks_of(entries))
    }
}

fn numbered_file_name(idx: usize) -> (r: String)
    ensures
        r@ == numbered_name(idx as int),
{
    let mut name = String::from_str("file_");
    push_decimal(&mut name, idx as u64);
    name
}

/// Assembles save-set blocks into files: header-based assembly when any
/// file header is present, else grouping on sequence-number resets.
#[verifier::rlimit(60)]
pub fn assemble_files(entries: &[TapEntry]) -> (r: Vec<ExtractedFile>)
    ensures
        r@.map_values(|f: ExtractedFile| f@) == spec_assemble_files(
            entries@.map_values(|e: TapEntry| e@),
        ),
{
    let ghost evs = entries@.map_values(|e: TapEntry| e@);
    let vms_files = assemble_vms_files(entries);
    let nv: usize = vms_files.len();
    if nv > 0 {
        let mut out: Vec<ExtractedFile> = Vec::new();
        let mut i: usize = 0;
        while i < nv
            invariant
                i <= nv,
                nv == vms_files@.len(),
                vms_files@.map_values(|f: VmsFile| f@) == spec_assemble_vms_files(evs),
                spec_assemble_vms_files(evs).len() > 0,
                out@.map_values(|f: ExtractedFile| f@) == spec_assemble_files(evs).take(i as int),
            decreases nv - i,
        {
            let ghost prev = out@;
            let vf = &vms_files[i];
            let name: String = if vf.name.as_str().is_empty() {
                numbered_file_name(i)
            } else {
                vf.name.clone()
            };
            let mut blocks: Vec<BackupBlock> = Vec::new();
            let nb: usize = vf.blocks.len();
            let mut j: usize = 0;
            while j < nb
                invariant
                    j <= nb,
                    nb == vf.blocks@.len(),
                    blocks@.map_values(|b: BackupBlock| b@) == vf.blocks@.map_values(
                        |b: BackupBlock| b@,
                    ).take(j as int),
                decreases nb - j,
            {
                let ghost bprev = blocks@;
                blocks.push(vf.blocks[j].duplicate());
                j = j + 1;
                proof {
                    assert(blocks@.map_values(|b: BackupBlock| b@) =~= bprev.map_values(
                        |b: BackupBlock| b@,
                    ).push(vf.blocks@[j - 1]@));
                    assert(blocks@.map_values(|b: BackupBlock| b@) =~= vf.blocks@.map_values(
                        |b: BackupBlock| b@,
                    ).take(j as int));
                }
            }
            proof {
                assert(blocks@.map_values(|b: BackupBlock| b@) =~= vf.blocks@.map_values(
                    |b: BackupBlock| b@,
                ));
            }
            let ef = ExtractedFile { name, blocks };
            proof {
                assert(vms_files@.map_values(|f: VmsFile| f@)[i as int] == vf@);
                assert(ef@ == spec_assemble_files(evs)[i as int]);
            }
            out.push(ef);
            i = i + 1;
            proof {
                assert(out@.map_values(|f: ExtractedFile| f@) =~= prev.map_values(
                    |f: ExtractedFile| f@,
                ).push(ef@));
                assert(out@.map_values(|f: ExtractedFile| f@) =~= spec_assemble_files(evs).take(
                    i as int,
                ));
            }
        }
        proof {
            assert(spec_assemble_files(evs).take(nv as int) =~= spec_assemble_files(evs));
        }
        return out;
    }

    let mut files: Vec<ExtractedFile> = Vec::new();
    let mut current_blocks: Vec<BackupBlock> = Vec::new();
    let n: usize = entries.len();
    proof {
        assert(evs.take(0) =~= Seq::<TapEntryV>::empty());
        assert(files@.map_values(|f: ExtractedFile| f@) =~= Seq::<ExtractedFileV>::empty());
        assert(current_blocks@.map_values(|b: BackupBlock| b@) =~= Seq::<BackupBlockV>::empty());
    }
    let mut i: usize = 0;
    while i < n
        invariant
            i <= n,
            n == entries@.len(),
            evs == entries@.map_values(|e: TapEntry| e@),
            (LegacyState {
                files: files@.map_values(|f: ExtractedFile| f@),
                current: current_blocks@.map_values(|b: BackupBlock| b@),
            }) == legacy_fold(vms_blocks_of(evs.take(i as int))),
        decreases n - i,
    {
        let ghost st0 = legacy_fold(vms_blocks_of(evs.take(i as int)));
        proof {
            assert(evs.take(i + 1).drop_last() =~= evs.take(i as int));
            assert(evs.take(i + 1).last() == entries@[i as int]@);
            if entries@[i as int]@.kind is Raw {
                assert(vms_blocks_of(evs.take(i + 1)) =~= vms_blocks_of(evs.take(i as int)));
            } else {
                assert(vms_blocks_of(evs.take(i + 1)) =~= vms_blocks_of(
                    evs.take(i as int),
                ).push(entries@[i as int]@.kind->VmsBlock_0));
                assert(vms_blocks_of(evs.take(i + 1)).drop_last() =~= vms_blocks_of(
                    evs.take(i as int),
                ));
            }
        }
        let block: BackupBlock = match &entries[i].kind {
            TapDataKind::VmsBlock(b) => b.duplicate(),
            TapDataKind::Raw(_) => {
                i = i + 1;
                continue ;
            },
        };
        let ghost bv = block@;

        let start_new: bool = if current_blocks.len() > 0 {
            let last_seq = current_blocks[current_blocks.len() - 1].sequence_number;
            block.sequence_number <= last_seq || block.sequence_number == 1
        } else {
            false
        };

        if start_new {
            let ghost files0 = files@;
            let name = numbered_file_name(files.len());
            let finished = ExtractedFile { name, blocks: current_blocks };
            proof {
                assert(finished@ == legacy_step(st0, bv).files.last());
            }
            files.push(finished);
            current_blocks = Vec::new();
            current_blocks.push(block);
            proof {
                assert(files@.map_values(|f: ExtractedFile| f@) =~= legacy_step(st0, bv).files);
                assert(current_blocks@.map_values(|b: BackupBlock| b@) =~= seq![bv]);
            }
        } else {
            let ghost bprev = current_blocks@;
            current_blocks.push(block);
            proof {
                assert(current_blocks@.map_values(|b: BackupBlock| b@) =~= bprev.map_values(
                    |b: BackupBlock| b@,
                ).push(bv));
            }
        }
        i = i + 1;
    }
    proof {
        assert(evs.take(n as int) =~= evs);
    }

    if current_blocks.len() > 0 {
        let ghost stf = legacy_fold(vms_blocks_of(evs));
        let ghost files0 = files@;
        let name = numbered_file_name(files.len());
        let finished = ExtractedFile { name, blocks: current_blocks };
        proof {
            assert(finished@ == legacy_files(vms_blocks_of(evs)).last());
        }
        files.push(finished);
        proof {
            assert(files@.map_values(|f: ExtractedFile| f@) =~= legacy_files(vms_blocks_of(evs)));
        }
    }
    files
}

/// The kind label shown for an assembled file.
pub open spec fn spec_record_type_label(n_blocks: int, has_header: bool) -> Seq<char> {
    if n_blocks == 0 {
        "Unknown"@
    } else if has_header {
        "VMS BACKUP file"@
    } else {
        "VMS BACKUP block"@
    }
}

/// Labels an assembled file by whether it has blocks and a typed header.
pub fn record_type_label(blocks: &[BackupBlock], has_header: bool) -> (r: &'static str)
    ensures
        r@ == spec_record_type_label(blocks@.len() as int, has_header),
{
    if blocks.len() == 0 {
        "Unknown"
    } else if has_header {
        "VMS BACKUP file"
    } else {
        "VMS BACKUP block"
    }
}

/// At most the first `limit` payload bytes of an assembled file.
pub fn collect_prefix(file: &ExtractedFile, limit: usize) -> (r: Vec<u8>)
    ensures
        r@ == (if concat_payloads(file@.blocks).len() <= limit {
            concat_payloads(file@.blocks)
        } else {
            concat_payloads(file@.blocks).take(limit as int)
        }),
{
    let mut data = file.payload();
    data.truncate(limit);
    proof {
        if concat_payloads(file@.blocks).len() <= limit {
            assert(data@ =~= concat_payloads(file@.blocks));
        }
    }
    data
}

/// All payload bytes of an assembled file.
pub fn collect_all(file: &ExtractedFile) -> (r: Vec<u8>)
    ensures
        r@ == concat_payloads(file@.blocks),
{
    file.payload()
}

/// At most the first `limit` payload bytes of a header-based file.
pub fn collect_vms_prefix(file: &VmsFile, limit: usize) -> (r: Vec<u8>)
    ensures
        r@ == (if concat_payloads(file@.blocks).len() <= limit {
            concat_payloads(file@.blocks)
        } else {
            concat_payloads(file@.blocks).take(limit as int)
        }),
{
    let mut data = collect_vms_all(file);
    data.truncate(limit);
    proof {
        if concat_payloads(file@.blocks).len() <= limit {
            assert(data@ =~= concat_payloads(file@.blocks));
        }
    }
    data
}

/// All payload bytes of a header-based file.
#[verifier::loop_isolation(false)]
pub fn collect_vms_all(file: &VmsFile) -> (r: Vec<u8>)
    ensures
        r@ == concat_payloads(file@.blocks),
{
    let mut data: Vec<u8> = Vec::new();
    let n: usize = file.blocks.len();
    let mut i: usize = 0;
    while i < n
        invariant
            i <= n,
            data@ == concat_payloads(file@.blocks.take(i as int)),
        decreases n - i,
    {
        data.extend_from_slice(file.blocks[i].payload.as_slice());
        i = i + 1;
        proof {
            assert(file@.blocks.take(i as int).drop_last() =~= file@.blocks.take(i - 1));
            assert(file@.blocks.take(i as int).last() == file.blocks@[i - 1]@);
        }
    }
    proof {
        assert(file@.blocks.take(n as int) =~= file@.blocks);
    }
    data
}


/// The number of directories in a sequence of subtrees.
pub open spec fn count_children_dirs(cs: Seq<DirectoryNodeV>) -> nat
    decreases cs,
{
    if cs.len() == 0 {
        0
    } else {
        count_children_dirs(cs.drop_last()) + spec_count_dirs(cs.last())
    }
}

/// The number of directories below a node: its children and all of
/// theirs, recursively.
pub open spec fn spec_count_dirs(n: DirectoryNodeV) -> nat
    decreases n,
{
    n.children.len() + count_children_dirs(n.children)
}

proof fn lemma_count_children_prefix(cs: Seq<DirectoryNodeV>, k: int)
    requires
        0 <= k <= cs.len(),
    ensures
        count_children_dirs(cs.take(k)) <= count_children_dirs(cs),
        cs.len() > 0 ==> count_children_dirs(cs.drop_last()) <= count_children_dirs(cs),
    decreases cs.len(),
{
    if k < cs.len() {
        assert(cs.take(k) =~= cs.drop_last().take(k));
        lemma_count_children_prefix(cs.drop_last(), k);
    } else {
        assert(cs.take(k) =~= cs);
        if cs.len() > 0 {
            lemma_count_children_prefix(cs.drop_last(), cs.len() - 1);
        }
    }
}

proof fn lemma_count_children_elem(cs: Seq<DirectoryNodeV>, i: int)
    requires
        0 <= i < cs.len(),
    ensures
        spec_count_dirs(cs[i]) <= count_children_dirs(cs),
    decreases cs.len(),
{
    if i < cs.len() - 1 {
        assert(cs.drop_last()[i] == cs[i]);
        lemma_count_children_elem(cs.drop_last(), i);
    }
}

/// Counts the directories of a tree, the root excluded.
#[verifier::loop_isolation(false)]
pub fn count_dirs(node: &DirectoryNode) -> (r: usize)
    requires
        spec_count_dirs(node_view(*node)) <= usize::MAX,
    ensures
        r == spec_count_dirs(node_view(*node)),
    decreases *node,
{
    proof {
        lemma_nodes_view(node.children@);
    }
    let n: usize = node.children.len();
    let mut count: usize = n;
    let mut i: usize = 0;
    while i < n
        invariant
            i <= n,
            count == n + count_children_dirs(node_view(*node).children.take(i as int)),
            count <= spec_count_dirs(node_view(*node)),
        decreases n - i,
    {
        proof {
            lemma_count_children_elem(node_view(*node).children, i as int);
            lemma_count_children_prefix(node_view(*node).children, i + 1);
            assert(node_view(*node).children[i as int] == node_view(node.children@[i as int]));
        }
        let sub: usize = count_dirs(&node.children[i]);
        proof {
            assert(node_view(*node).children.take(i + 1).drop_last() =~= node_view(
                *node,
            ).children.take(i as int));
            assert(node_view(*node).children.take(i + 1).last() == node_view(
                *node,
            ).children[i as int]);
            lemma_count_children_prefix(node_view(*node).children, i + 1);
        }
        count = count + sub;
        i = i + 1;
    }
    proof {
        assert(node_view(*node).children.take(n as int) =~= node_view(*node).children);
    }
    count
}

} // verus!
