//! The errors that stop a program.

use vstd::prelude::*;

verus! {

/// Why an instruction, and with it the whole program, failed.
#[derive(Clone, Copy, PartialEq, Eq, Structural, Debug)]
pub enum ErrorCode {
    /// An operand was needed and the stack did not hold it.
    StackUnderflow,
    /// A resource bound was exceeded.
    StackOverflow,
    /// An unknown opcode, or an instruction cut short.
    InvalidInstruction,
    /// An operand of the wrong kind.
    InvalidOperand,
    /// A key that the store lacks, or labels that break a join's assumptions.
    NotFound,
    /// A register or a position beyond the frame.
    OutOfRange,
    /// Vector and label lengths disagree.
    NotAligned,
    /// A subtraction went below zero, or a join's addend holds a label that
    /// the carrier lacks.
    MathUnderflow,
    /// A result did not fit.
    MathOverflow,
}

} // verus!
