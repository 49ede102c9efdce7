//! Opcode numbers of the instruction set.

use vstd::prelude::*;

verus! {

pub const OP_LDL: u128 = 10;

pub const OP_LDV: u128 = 11;

pub const OP_LDS: u128 = 12;

pub const OP_LDD: u128 = 13;

pub const OP_LDR: u128 = 14;

pub const OP_STL: u128 = 20;

pub const OP_STV: u128 = 21;

pub const OP_STS: u128 = 22;

pub const OP_STR: u128 = 23;

pub const OP_PKV: u128 = 30;

pub const OP_PKL: u128 = 31;

pub const OP_UNPK: u128 = 32;

pub const OP_T: u128 = 33;

pub const OP_VPUSH: u128 = 34;

pub const OP_VPOP: u128 = 35;

pub const OP_LUNION: u128 = 40;

pub const OP_LPUSH: u128 = 41;

pub const OP_LPOP: u128 = 42;

pub const OP_JADD: u128 = 43;

pub const OP_JSSB: u128 = 44;

pub const OP_JXPND: u128 = 45;

pub const OP_JFLTR: u128 = 46;

pub const OP_ADD: u128 = 50;

pub const OP_SUB: u128 = 51;

pub const OP_SSB: u128 = 52;

pub const OP_MUL: u128 = 53;

pub const OP_DIV: u128 = 54;

pub const OP_SQRT: u128 = 55;

pub const OP_MIN: u128 = 60;

pub const OP_MAX: u128 = 61;

pub const OP_VSUM: u128 = 70;

pub const OP_VMIN: u128 = 71;

pub const OP_VMAX: u128 = 72;

pub const OP_IMMS: u128 = 80;

pub const OP_IMML: u128 = 81;

pub const OP_ZEROS: u128 = 82;

pub const OP_ONES: u128 = 83;

pub const OP_B: u128 = 90;

pub const OP_FOLD: u128 = 91;

pub const OP_POPN: u128 = 92;

pub const OP_SWAP: u128 = 93;

/// How many argument words follow the opcode `op`, or `None` for an unknown opcode.
pub open spec fn arity_spec(op: u128) -> Option<nat> {
    if op == OP_UNPK || op == OP_VPOP || op == OP_LPOP || op == OP_SQRT || op == OP_VSUM || op
        == OP_VMIN || op == OP_VMAX {
        Some(0)
    } else if op == OP_JADD || op == OP_JSSB || op == OP_JXPND || op == OP_JFLTR {
        Some(2)
    } else if op == OP_B || op == OP_FOLD {
        Some(4)
    } else if op == OP_LDL || op == OP_LDV || op == OP_LDS || op == OP_LDD || op == OP_LDR || op
        == OP_STL || op == OP_STV || op == OP_STS || op == OP_STR || op == OP_PKV || op == OP_PKL
        || op == OP_T || op == OP_VPUSH || op == OP_LUNION || op == OP_LPUSH || op == OP_ADD || op
        == OP_SUB || op == OP_SSB || op == OP_MUL || op == OP_DIV || op == OP_MIN || op == OP_MAX
        || op == OP_IMMS || op == OP_IMML || op == OP_ZEROS || op == OP_ONES || op == OP_POPN || op
        == OP_SWAP {
        Some(1)
    } else {
        None
    }
}

/// How many argument words follow the opcode `op`.
pub fn arity(op: u128) -> (r: Option<usize>)
    ensures
        match r {
            Some(n) => arity_spec(op) == Some(n as nat),
            None => arity_spec(op) is None,
        },
{
    if op == OP_UNPK || op == OP_VPOP || op == OP_LPOP || op == OP_SQRT || op == OP_VSUM || op
        == OP_VMIN || op == OP_VMAX {
        Some(0)
    } else if op == OP_JADD || op == OP_JSSB || op == OP_JXPND || op == OP_JFLTR {
        Some(2)
    } else if op == OP_B || op == OP_FOLD {
        Some(4)
    } else if op == OP_LDL || op == OP_LDV || op == OP_LDS || op == OP_LDD || op == OP_LDR || op
        == OP_STL || op == OP_STV || op == OP_STS || op == OP_STR || op == OP_PKV || op == OP_PKL
        || op == OP_T || op == OP_VPUSH || op == OP_LUNION || op == OP_LPUSH || op == OP_ADD || op
        == OP_SUB || op == OP_SSB || op == OP_MUL || op == OP_DIV || op == OP_MIN || op == OP_MAX
        || op == OP_IMMS || op == OP_IMML || op == OP_ZEROS || op == OP_ONES || op == OP_POPN || op
        == OP_SWAP {
        Some(1)
    } else {
        None
    }
}

/// A code word read as a position, register, count or size: words beyond
/// the machine's index range stand for the largest index.
pub open spec fn index_of_word(w: u128) -> nat {
    if w > usize::MAX {
        usize::MAX as nat
    } else {
        w as nat
    }
}

pub fn word_index(w: u128) -> (r: usize)
    ensures
        r as nat == index_of_word(w),
{
    if w > usize::MAX as u128 {
        usize::MAX
    } else {
        w as usize
    }
}

} // verus!
