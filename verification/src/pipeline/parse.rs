//! Per-format block decoding, and the shared Rad50 text codec.
use vstd::prelude::*;

use crate::pipeline::block::{BlockClassification, TapeBlock};
use crate::utils::fmt::push_char;

pub mod rsts;
pub mod rsx;
pub mod rt11;
pub mod vms;

verus! {

/// The single character a Rad50 symbol index contributes: indices 1 to
/// 26 are letters, 27 to 29 are `$`, `.` and `%`, 30 to 39 are digits;
/// index 0 (the space) and indices past the table contribute nothing.
pub open spec fn rad50_char_seq(idx: int) -> Seq<char> {
    if 1 <= idx <= 26 {
        seq![(((64 + idx) as u8) as char)]
    } else if idx == 27 {
        seq!['$']
    } else if idx == 28 {
        seq!['.']
    } else if idx == 29 {
        seq!['%']
    } else if 30 <= idx <= 39 {
        seq![(((18 + idx) as u8) as char)]
    } else {
        Seq::empty()
    }
}

/// The text of one 16-bit Rad50 word: three symbol indices in base 40,
/// most significant first, spaces suppressed.
pub open spec fn spec_rad50_word(w: u16) -> Seq<char> {
    rad50_char_seq(w as int / 1600) + rad50_char_seq((w as int % 1600) / 40) + rad50_char_seq(
        w as int % 40,
    )
}

fn push_rad50(s: &mut String, idx: u16)
    requires
        idx <= 40,
    ensures
        final(s)@ == old(s)@ + rad50_char_seq(idx as int),
{
    if 1 <= idx && idx <= 26 {
        push_char(s, ((64 + idx as u8)) as char);
    } else if idx == 27 {
        push_char(s, '$');
    } else if idx == 28 {
        push_char(s, '.');
    } else if idx == 29 {
        push_char(s, '%');
    } else if 30 <= idx && idx <= 39 {
        push_char(s, ((18 + idx as u8)) as char);
    } else {
        proof {
            assert(final(s)@ =~= old(s)@ + rad50_char_seq(idx as int));
        }
    }
}

/// Word zero is three spaces, and spaces are suppressed: it decodes to
/// the empty text.
pub proof fn lemma_rad50_word_zero()
    ensures
        spec_rad50_word(0) == Seq::<char>::empty(),
{
    assert(spec_rad50_word(0) =~= Seq::<char>::empty());
}

/// Decodes one 16-bit Rad50 word into up to three characters; the space
/// symbol is suppressed, never emitted.
pub fn decode_rad50_word(word: u16) -> (r: String)
    ensures
        r@ == spec_rad50_word(word),
        r@.len() <= 3,
        forall|i: int| 0 <= i < r@.len() ==> r@[i] != ' ',
{
    let a: u16 = word / 1600;
    let b: u16 = (word % 1600) / 40;
    let c: u16 = word % 40;
    let mut out = String::new();
    push_rad50(&mut out, a);
    push_rad50(&mut out, b);
    push_rad50(&mut out, c);
    out
}

/// The decoded form of one classified block.
#[derive(Debug, Clone, PartialEq, Eq)]
pub enum ParsedBlock {
    Rsx(self::rsx::RsxBlockInfo),
    Rt11(self::rt11::Rt11BlockInfo),
    Rsts(self::rsts::RstsBlockInfo),
}

/// Decodes a block according to its classification: directory formats
/// are decoded into entries; save-set, unknown and raw blocks yield
/// nothing here.
pub fn parse_classified_block(block: &TapeBlock) -> (r: Option<ParsedBlock>)
    ensures
        match block.classification {
            BlockClassification::Rsx(_) => match r {
                Some(p) => p is Rsx && self::rsx::rsx_block_valid(block@.raw)
                    && p->Rsx_0@ == self::rsx::spec_parse_rsx(block@.raw),
                None => !self::rsx::rsx_block_valid(block@.raw),
            },
            BlockClassification::Rt11(_) => match r {
                Some(p) => p is Rt11 && self::rt11::rt11_block_valid(block@.raw)
                    && p->Rt11_0@ == self::rt11::spec_parse_rt11(block@.raw),
                None => !self::rt11::rt11_block_valid(block@.raw),
            },
            BlockClassification::Rsts(_) => match r {
                Some(p) => p is Rsts && self::rsts::rsts_block_valid(block@.raw)
                    && p->Rsts_0@ == self::rsts::spec_parse_rsts(block@.raw),
                None => !self::rsts::rsts_block_valid(block@.raw),
            },
            _ => r is None,
        },
{
    match &block.classification {
        BlockClassification::Rsx(_) => match self::rsx::parse_block(block) {
            Some(i) => Some(ParsedBlock::Rsx(i)),
            None => None,
        },
        BlockClassification::Rt11(_) => match self::rt11::parse_block(block) {
            Some(i) => Some(ParsedBlock::Rt11(i)),
            None => None,
        },
        BlockClassification::Rsts(_) => match self::rsts::parse_block(block) {
            Some(i) => Some(ParsedBlock::Rsts(i)),
            None => None,
        },
        _ => None,
    }
}

} // verus!
