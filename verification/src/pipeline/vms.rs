//! Save-set structures found among classified blocks: record parsing,
//! per-file grouping, and reconstruction into file entries.
use vstd::prelude::*;

pub mod block;
pub mod file;
pub mod header;
pub mod reconstruct;

use crate::pipeline::block::{BlockClassification, TapeBlock};
use crate::pipeline::vms::block::{
    classify_vms_block, spec_parse_vms_block, Fh2Record, Fh2RecordV, VbnRecord, VbnRecordV,
    VmsBlockKindV, Xh2Record, Xh3Record,
};

verus! {

/// The records collected for one file before reconstruction: its header,
/// optional extension and ident records, and its data fragments.
#[derive(Debug, Clone, PartialEq, Eq)]
pub struct VmsCollected {
    pub fh2: Option<Fh2Record>,
    pub xh2: Option<Xh2Record>,
    pub xh3: Option<Xh3Record>,
    pub vbn: Vec<VbnRecord>,
}

/// Mathematical model of one collected file group.
pub struct VmsCollectedV {
    pub fh2: Option<Fh2RecordV>,
    pub xh2: Option<Xh2Record>,
    pub xh3: Option<Xh3Record>,
    pub vbn: Seq<VbnRecordV>,
}

impl View for VmsCollected {
    type V = VmsCollectedV;

    open spec fn view(&self) -> VmsCollectedV {
        VmsCollectedV {
            fh2: match self.fh2 {
                Some(f) => Some(f@),
                None => None,
            },
            xh2: self.xh2,
            xh3: self.xh3,
            vbn: self.vbn@.map_values(|v: VbnRecord| v@),
        }
    }
}

impl VmsCollected {
    /// A group with nothing collected yet.
    pub fn new() -> (r: VmsCollected)
        ensures
            r@.fh2 is None,
            r@.xh2 is None,
            r@.xh3 is None,
            r@.vbn == Seq::<VbnRecordV>::empty(),
    {
        let r = VmsCollected { fh2: None, xh2: None, xh3: None, vbn: Vec::new() };
        proof {
            assert(r@.vbn =~= Seq::<VbnRecordV>::empty());
        }
        r
    }
}

/// One step of the collection pass over a save-set-classified block: a
/// file header opens a new group keyed by the block's index; extension,
/// ident and data records attach to the most recently opened group and
/// are dropped when none is open.
pub open spec fn collect_step(groups: Seq<(u32, VmsCollectedV)>, b: crate::pipeline::block::TapeBlockV) -> Seq<
    (u32, VmsCollectedV),
> {
    if !(b.classification is Vms) || b.raw.len() < 8 || spec_parse_vms_block(b.raw) is Unknown {
        groups
    } else {
        match spec_parse_vms_block(b.raw) {
            VmsBlockKindV::FileHeader(fh2) => groups.push(
                (b.index, VmsCollectedV { fh2: Some(fh2), xh2: None, xh3: None, vbn: Seq::empty() }),
            ),
            VmsBlockKindV::Extension(xh2) => if groups.len() > 0 {
                groups.update(
                    groups.len() - 1,
                    (
                        groups.last().0,
                        VmsCollectedV { xh2: Some(xh2), ..groups.last().1 },
                    ),
                )
            } else {
                groups
            },
            VmsBlockKindV::Ident(xh3) => if groups.len() > 0 {
                groups.update(
                    groups.len() - 1,
                    (
                        groups.last().0,
                        VmsCollectedV { xh3: Some(xh3), ..groups.last().1 },
                    ),
                )
            } else {
                groups
            },
            VmsBlockKindV::FileData(vbn) => if groups.len() > 0 {
                groups.update(
                    groups.len() - 1,
                    (
                        groups.last().0,
                        VmsCollectedV { vbn: groups.last().1.vbn.push(vbn), ..groups.last().1 },
                    ),
                )
            } else {
                groups
            },
            VmsBlockKindV::Unknown => groups,
        }
    }
}

/// The groups collected from a block sequence.
pub open spec fn spec_collect_vms(blocks: Seq<crate::pipeline::block::TapeBlockV>) -> Seq<
    (u32, VmsCollectedV),
>
    decreases blocks.len(),
{
    if blocks.len() == 0 {
        Seq::empty()
    } else {
        collect_step(spec_collect_vms(blocks.drop_last()), blocks.last())
    }
}

/// The model of a collected group list.
pub open spec fn groups_view(gs: Seq<(u32, VmsCollected)>) -> Seq<(u32, VmsCollectedV)> {
    gs.map_values(|g: (u32, VmsCollected)| (g.0, g.1@))
}

/// Scans classified blocks and collects all save-set structures, one
/// group per file header, keyed by the header block's index.
#[verifier::rlimit(60)]
pub fn collect_vms_blocks(blocks: &[TapeBlock]) -> (r: Vec<(u32, VmsCollected)>)
    ensures
        groups_view(r@) == spec_collect_vms(blocks@.map_values(|b: TapeBlock| b@)),
{
    let ghost bvs = blocks@.map_values(|b: TapeBlock| b@);
    let mut out: Vec<(u32, VmsCollected)> = Vec::new();
    let n: usize = blocks.len();
    proof {
        assert(bvs.take(0) =~= Seq::<crate::pipeline::block::TapeBlockV>::empty());
        assert(groups_view(out@) =~= Seq::<(u32, VmsCollectedV)>::empty());
    }
    let mut i: usize = 0;
    while i < n
        invariant
            i <= n,
            n == blocks@.len(),
            bvs == blocks@.map_values(|b: TapeBlock| b@),
            groups_view(out@) == spec_collect_vms(bvs.take(i as int)),
        decreases n - i,
    {
        let ghost st0 = spec_collect_vms(bvs.take(i as int));
        proof {
            assert(bvs.take(i + 1).drop_last() =~= bvs.take(i as int));
            assert(bvs.take(i + 1).last() == blocks@[i as int]@);
        }
        let blk = &blocks[i];
        let is_vms = matches!(blk.classification, BlockClassification::Vms(_));
        if is_vms {
            if let Some(parsed) = classify_vms_block(blk.raw.as_slice(), blk.index) {
                let ghost prev = out@;
                match parsed.kind {
                    crate::pipeline::vms::block::VmsBlockKind::FileHeader(fh2) => {
                        let entry = (blk.index, VmsCollected {
                            fh2: Some(fh2),
                            xh2: None,
                            xh3: None,
                            vbn: Vec::new(),
                        });
                        out.push(entry);
                        proof {
                            assert(out@.last().1@.vbn =~= Seq::<VbnRecordV>::empty());
                            assert(out@.last().1@ == collect_step(
                                st0,
                                blocks@[i as int]@,
                            ).last().1);
                            assert(groups_view(out@) =~= collect_step(st0, blocks@[i as int]@));
                        }
                    },
                    crate::pipeline::vms::block::VmsBlockKind::Extension(xh2) => {
                        match out.pop() {
                            Some((k, mut g)) => {
                                g.xh2 = Some(xh2);
                                out.push((k, g));
                                proof {
                                    assert(out@ =~= prev.update(
                                        prev.len() - 1,
                                        out@.last(),
                                    ));
                                    assert(groups_view(out@) =~= collect_step(
                                        st0,
                                        blocks@[i as int]@,
                                    ));
                                }
                            },
                            None => {},
                        }
                    },
                    crate::pipeline::vms::block::VmsBlockKind::Ident(xh3) => {
                        match out.pop() {
                            Some((k, mut g)) => {
                                g.xh3 = Some(xh3);
                                out.push((k, g));
                                proof {
                                    assert(out@ =~= prev.update(
                                        prev.len() - 1,
                                        out@.last(),
                                    ));
                                    assert(groups_view(out@) =~= collect_step(
                                        st0,
                                        blocks@[i as int]@,
                                    ));
                                }
                            },
                            None => {},
                        }
                    },
                    crate::pipeline::vms::block::VmsBlockKind::FileData(vbn) => {
                        match out.pop() {
                            Some((k, mut g)) => {
                                let ghost g0 = g@;
                                g.vbn.push(vbn);
                                out.push((k, g));
                                proof {
                                    assert(out@.last().1@.vbn =~= g0.vbn.push(
                                        out@.last().1.vbn@.last()@,
                                    ));
                                    assert(out@ =~= prev.update(
                                        prev.len() - 1,
                                        out@.last(),
                                    ));
                                    assert(groups_view(out@) =~= collect_step(
                                        st0,
                                        blocks@[i as int]@,
                                    ));
                                }
                            },
                            None => {},
                        }
                    },
                    crate::pipeline::vms::block::VmsBlockKind::Unknown => {},
                }
            }
        }
        i = i + 1;
    }
    proof {
        assert(bvs.take(n as int) =~= bvs);
    }
    out
}

/// The index of the most recently opened group, when any is open.
pub fn last_key(groups: &Vec<(u32, VmsCollected)>) -> (r: Option<u32>)
    ensures
        match r {
            Some(k) => groups@.len() > 0 && k == groups@.last().0,
            None => groups@.len() == 0,
        },
{
    let m: usize = groups.len();
    if m == 0 {
        None
    } else {
        Some(groups[m - 1].0)
    }
}

} // verus!
