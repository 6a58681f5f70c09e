//! Whole-image reconstruction: the dominant format chooses a builder,
//! and save-set files are added whenever save-set blocks are present.
use vstd::prelude::*;

pub mod builder;
pub mod vms;

use crate::pipeline::block::{BlockClassification, TapeBlock, TapeBlockV, TapeFormat};
use crate::pipeline::file::{file_view, files_view, TapeFile, TapeFileV};

verus! {

/// How many blocks of a sequence carry the given classification tag.
pub open spec fn count_classified(blocks: Seq<TapeBlockV>, t: TapeFormat) -> nat
    decreases blocks.len(),
{
    if blocks.len() == 0 {
        0
    } else {
        count_classified(blocks.drop_last(), t) + (if crate::pipeline::detect::class_tag(
            blocks.last().classification,
        ) == t {
            1nat
        } else {
            0nat
        })
    }
}

/// The dominant format by stored classifications: the tag with the
/// highest count, ties broken in fixed priority order (save-set first,
/// then the directory formats); unknown when nothing classified.
pub open spec fn spec_dominant_classified(blocks: Seq<TapeBlockV>) -> TapeFormat {
    let v = count_classified(blocks, TapeFormat::Vms);
    let r = count_classified(blocks, TapeFormat::Rsx);
    let t = count_classified(blocks, TapeFormat::Rt11);
    let e = count_classified(blocks, TapeFormat::Rsts);
    if v == 0 && r == 0 && t == 0 && e == 0 {
        TapeFormat::Unknown
    } else if v >= r && v >= t && v >= e {
        TapeFormat::Vms
    } else if r >= t && r >= e {
        TapeFormat::Rsx
    } else if t >= e {
        TapeFormat::Rt11
    } else {
        TapeFormat::Rsts
    }
}

/// The dominant format over blocks as they are classified.
#[verifier::loop_isolation(false)]
fn detect_dominant_format(blocks: &[TapeBlock]) -> (r: TapeFormat)
    ensures
        r == spec_dominant_classified(blocks@.map_values(|b: TapeBlock| b@)),
{
    let ghost bvs = blocks@.map_values(|b: TapeBlock| b@);
    let n: usize = blocks.len();
    let mut rsx: usize = 0;
    let mut rt11: usize = 0;
    let mut rsts: usize = 0;
    let mut vms: usize = 0;
    let mut i: usize = 0;
    while i < n
        invariant
            i <= n,
            rsx == count_classified(bvs.take(i as int), TapeFormat::Rsx),
            rt11 == count_classified(bvs.take(i as int), TapeFormat::Rt11),
            rsts == count_classified(bvs.take(i as int), TapeFormat::Rsts),
            vms == count_classified(bvs.take(i as int), TapeFormat::Vms),
            rsx <= i && rt11 <= i && rsts <= i && vms <= i,
        decreases n - i,
    {
        match blocks[i].classification {
            BlockClassification::Rsx(_) => {
                rsx = rsx + 1;
            },
            BlockClassification::Rt11(_) => {
                rt11 = rt11 + 1;
            },
            BlockClassification::Rsts(_) => {
                rsts = rsts + 1;
            },
            BlockClassification::Vms(_) => {
                vms = vms + 1;
            },
            _ => {},
        }
        i = i + 1;
        proof {
            assert(bvs.take(i as int).drop_last() =~= bvs.take(i - 1));
            assert(bvs.take(i as int).last() == blocks@[i - 1]@);
        }
    }
    proof {
        assert(bvs.take(n as int) =~= bvs);
    }

    if vms == 0 && rsx == 0 && rt11 == 0 && rsts == 0 {
        TapeFormat::Unknown
    } else if vms >= rsx && vms >= rt11 && vms >= rsts {
        TapeFormat::Vms
    } else if rsx >= rt11 && rsx >= rsts {
        TapeFormat::Rsx
    } else if rt11 >= rsts {
        TapeFormat::Rt11
    } else {
        TapeFormat::Rsts
    }
}

/// Whether any block carries a save-set classification.
pub open spec fn any_vms_classified(blocks: Seq<TapeBlockV>) -> bool {
    exists|i: int| 0 <= i < blocks.len() && blocks[i].classification is Vms
}

/// The reconstruction of a whole classified image: the dominant format's
/// builder runs first, and save-set files are appended when save-set
/// blocks are present but the save-set builder has not already run.
pub open spec fn spec_reconstruct_all(blocks: Seq<TapeBlockV>) -> Seq<TapeFileV> {
    let base = match spec_dominant_classified(blocks) {
        TapeFormat::Vms => vms::spec_reconstruct_vms_files(blocks),
        TapeFormat::Rsx => builder::spec_reconstruct_rsx(blocks),
        TapeFormat::Rt11 => builder::spec_reconstruct_rt11(blocks),
        TapeFormat::Rsts => builder::spec_reconstruct_rsts(blocks),
        _ => Seq::empty(),
    };
    if !(spec_dominant_classified(blocks) is Vms) && any_vms_classified(blocks) {
        base + vms::spec_reconstruct_vms_files(blocks)
    } else {
        base
    }
}

fn any_vms(blocks: &[TapeBlock]) -> (r: bool)
    ensures
        r == any_vms_classified(blocks@.map_values(|b: TapeBlock| b@)),
{
    let ghost bvs = blocks@.map_values(|b: TapeBlock| b@);
    let n: usize = blocks.len();
    let mut has_vms = false;
    let mut i: usize = 0;
    while i < n
        invariant_except_break
            !has_vms,
        invariant
            i <= n,
            n == blocks@.len(),
            bvs == blocks@.map_values(|b: TapeBlock| b@),
            forall|j: int| 0 <= j < i ==> !(bvs[j].classification is Vms),
        ensures
            bvs == blocks@.map_values(|b: TapeBlock| b@),
            has_vms == any_vms_classified(bvs),
        decreases n - i,
    {
        if matches!(blocks[i].classification, BlockClassification::Vms(_)) {
            has_vms = true;
            proof {
                assert(bvs[i as int].classification is Vms);
            }
            break ;
        }
        i = i + 1;
    }
    has_vms
}

fn append_vms_files(out: &mut Vec<TapeFile>, blocks: &[TapeBlock])
    ensures
        files_view(final(out)@) == files_view(old(out)@) + vms::spec_reconstruct_vms_files(
            blocks@.map_values(|b: TapeBlock| b@),
        ),
{
    let ghost out0 = out@;
    let mut extra = crate::pipeline::vms::reconstruct::reconstruct_vms(blocks);
    let ghost extra0 = extra@;
    out.append(&mut extra);
    proof {
        crate::pipeline::file::lemma_files_view(out@);
        crate::pipeline::file::lemma_files_view(out0);
        crate::pipeline::file::lemma_files_view(extra0);
        assert(out@ =~= out0 + extra0);
        assert forall|i: int| 0 <= i < out@.len() implies files_view(out@)[i] == (files_view(out0)
            + files_view(extra0))[i] by {
            assert(files_view(out@)[i] == file_view(out@[i]));
            if i < out0.len() {
                assert(out@[i] == out0[i]);
                assert(files_view(out0)[i] == file_view(out0[i]));
            } else {
                assert(out@[i] == extra0[i - out0.len()]);
                assert(files_view(extra0)[i - out0.len()] == file_view(extra0[i - out0.len()]));
            }
        }
        assert(files_view(out@) =~= files_view(out0) + files_view(extra0));
    }
}

/// Reconstructs all files of a classified image.
#[verifier::rlimit(100)]
pub fn reconstruct_all(blocks: &[TapeBlock]) -> (r: Vec<TapeFile>)
    ensures
        files_view(r@) == spec_reconstruct_all(blocks@.map_values(|b: TapeBlock| b@)),
{
    let ghost bvs = blocks@.map_values(|b: TapeBlock| b@);
    let mut out: Vec<TapeFile> = Vec::new();
    let mut added_vms = false;

    match detect_dominant_format(blocks) {
        TapeFormat::Vms => {
            out = crate::pipeline::vms::reconstruct::reconstruct_vms(blocks);
            added_vms = true;
        },
        TapeFormat::Rsx => {
            out = builder::reconstruct_rsx(blocks);
        },
        TapeFormat::Rt11 => {
            out = builder::reconstruct_rt11(blocks);
        },
        TapeFormat::Rsts => {
            out = builder::reconstruct_rsts(blocks);
        },
        _ => {
            proof {
                assert(files_view(out@) =~= Seq::<TapeFileV>::empty());
            }
        },
    }

    if !added_vms {
        if any_vms(blocks) {
            append_vms_files(&mut out, blocks);
        }
    }

    out
}

} // verus!
