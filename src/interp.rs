//! The meaning of a whole program: a frame and a store in, a frame and a
//! store out, or the error that stopped it.

use vstd::prelude::*;

use crate::amount::{Amount, SCALE};
use crate::error::ErrorCode;
use crate::opcodes::{
    OP_LDL, OP_LDV, OP_LDS, OP_LDD, OP_LDR, OP_STL, OP_STV, OP_STS, OP_STR, OP_PKV, OP_PKL,
    OP_UNPK, OP_T, OP_VPUSH, OP_VPOP, OP_LUNION, OP_LPUSH, OP_LPOP, OP_JADD, OP_JSSB, OP_JXPND,
    OP_JFLTR, OP_ADD, OP_SUB, OP_SSB, OP_MUL, OP_DIV, OP_SQRT, OP_MIN, OP_MAX, OP_VSUM, OP_VMIN,
    OP_VMAX, OP_IMMS, OP_IMML, OP_ZEROS, OP_ONES, OP_B, OP_FOLD, OP_POPN, OP_SWAP, arity_spec,
    index_of_word,
};
use crate::operand::Value;
use crate::semantics::{
    aggregate_spec, arith_spec, below_n, fill_spec, join_spec, ldd_spec, ldr_spec, lpop_spec,
    lpush_spec, lunion_spec, pkl_spec, pkv_spec, popn_spec, push_spec, sqrt_frame_spec, str_spec,
    swap_spec, top_n, transpose_spec, unpk_spec, vpop_spec, vpush_spec, with_stack, Aggregate,
    ArithOp, Frame, JoinOp,
};
use crate::store::{labels_at, scalar_at, vector_at, StoreModel, StoreWrite};

verus! {

/// The bounds a host sets on a run.
#[derive(Clone, Copy, PartialEq, Eq, Structural, Debug)]
pub struct Limits {
    /// How deeply `B` and `FOLD` may nest.
    pub max_depth: usize,
    /// The most registers a called frame may ask for.
    pub max_registers: usize,
    /// The most elements a `FOLD` may iterate over.
    pub max_fold: usize,
    /// The most operands a stack may hold after an instruction.
    pub max_stack: usize,
    /// The most code words a program may have.
    pub max_code: usize,
}

/// The instructions that touch neither the store nor other programs, with
/// their first two argument words.
pub open spec fn pure_step(op: u128, a0: u128, a1: u128, f: Frame) -> Result<Frame, ErrorCode> {
    let x = index_of_word(a0);
    let y = index_of_word(a1);
    if op == OP_LDD {
        ldd_spec(f, x)
    } else if op == OP_LDR {
        ldr_spec(f, x)
    } else if op == OP_STR {
        str_spec(f, x)
    } else if op == OP_PKV {
        pkv_spec(f, x)
    } else if op == OP_PKL {
        pkl_spec(f, x)
    } else if op == OP_UNPK {
        unpk_spec(f)
    } else if op == OP_T {
        transpose_spec(f, x)
    } else if op == OP_VPUSH {
        vpush_spec(f, a0)
    } else if op == OP_VPOP {
        vpop_spec(f)
    } else if op == OP_LUNION {
        lunion_spec(f, x)
    } else if op == OP_LPUSH {
        lpush_spec(f, a0)
    } else if op == OP_LPOP {
        lpop_spec(f)
    } else if op == OP_JADD {
        join_spec(f, JoinOp::Add, x, y)
    } else if op == OP_JSSB {
        join_spec(f, JoinOp::Ssb, x, y)
    } else if op == OP_JXPND {
        join_spec(f, JoinOp::Expand, x, y)
    } else if op == OP_JFLTR {
        join_spec(f, JoinOp::Filter, x, y)
    } else if op == OP_ADD {
        arith_spec(f, ArithOp::Add, x)
    } else if op == OP_SUB {
        arith_spec(f, ArithOp::Sub, x)
    } else if op == OP_SSB {
        arith_spec(f, ArithOp::Ssb, x)
    } else if op == OP_MUL {
        arith_spec(f, ArithOp::Mul, x)
    } else if op == OP_DIV {
        arith_spec(f, ArithOp::Div, x)
    } else if op == OP_SQRT {
        sqrt_frame_spec(f)
    } else if op == OP_MIN {
        arith_spec(f, ArithOp::Min, x)
    } else if op == OP_MAX {
        arith_spec(f, ArithOp::Max, x)
    } else if op == OP_VSUM {
        aggregate_spec(f, Aggregate::Sum)
    } else if op == OP_VMIN {
        aggregate_spec(f, Aggregate::Least)
    } else if op == OP_VMAX {
        aggregate_spec(f, Aggregate::Greatest)
    } else if op == OP_IMMS {
        Ok(push_spec(f, Value::Scalar(Amount(a0))))
    } else if op == OP_IMML {
        Ok(push_spec(f, Value::Label(a0)))
    } else if op == OP_ZEROS {
        fill_spec(f, x, Amount(0))
    } else if op == OP_ONES {
        fill_spec(f, x, Amount(SCALE))
    } else if op == OP_POPN {
        popn_spec(f, x)
    } else if op == OP_SWAP {
        swap_spec(f, x)
    } else {
        Err(ErrorCode::InvalidInstruction)
    }
}

/// The instructions that read or write the store.
pub open spec fn store_step(op: u128, a0: u128, f: Frame, st: StoreModel) -> Result<
    (Frame, StoreModel),
    ErrorCode,
> {
    if op == OP_LDL {
        match labels_at(st, a0) {
            Ok(l) => Ok((push_spec(f, Value::Labels(l)), st)),
            Err(e) => Err(e),
        }
    } else if op == OP_LDV {
        match vector_at(st, a0) {
            Ok(v) => Ok((push_spec(f, Value::Vector(v)), st)),
            Err(e) => Err(e),
        }
    } else if op == OP_LDS {
        Ok((push_spec(f, Value::Scalar(scalar_at(st, a0))), st))
    } else if f.stack.len() == 0 {
        Err(ErrorCode::StackUnderflow)
    } else {
        let rest = with_stack(f, f.stack.drop_last());
        match (op == OP_STL, op == OP_STV, f.stack.last()) {
            (true, _, Value::Labels(l)) => Ok(
                (
                    rest,
                    StoreModel {
                        labels: st.labels.insert(a0, l),
                        writes: st.writes.push(StoreWrite::Labels(a0, l)),
                        ..st
                    },
                ),
            ),
            (false, true, Value::Vector(v)) => Ok(
                (
                    rest,
                    StoreModel {
                        vectors: st.vectors.insert(a0, v),
                        writes: st.writes.push(StoreWrite::Vector(a0, v)),
                        ..st
                    },
                ),
            ),
            (false, false, Value::Scalar(x)) => Ok(
                (
                    rest,
                    StoreModel {
                        scalars: st.scalars.insert(a0, x),
                        writes: st.writes.push(StoreWrite::Scalar(a0, x)),
                        ..st
                    },
                ),
            ),
            _ => Err(ErrorCode::InvalidOperand),
        }
    }
}

pub open spec fn is_store_op(op: u128) -> bool {
    op == OP_LDL || op == OP_LDV || op == OP_LDS || op == OP_STL || op == OP_STV || op == OP_STS
}

/// `n` empty registers.
pub open spec fn empty_regs(n: nat) -> Seq<Value> {
    Seq::new(n, |i: int| Value::Empty)
}

/// The elements of a container, as the operands that `FOLD` pushes.
pub open spec fn fold_items(v: Value) -> Option<Seq<Value>> {
    match v {
        Value::Vector(xs) => Some(xs.map_values(|x: Amount| Value::Scalar(x))),
        Value::Labels(ls) => Some(ls.map_values(|x: u128| Value::Label(x))),
        _ => None,
    }
}

/// The caller's frame after a call that took its top `n_in` operands and
/// gave back the callee's top `n_out`.
pub open spec fn return_to(f: Frame, rest: Seq<Value>, n_in: nat, callee: Frame, n_out: nat) -> Result<
    Frame,
    ErrorCode,
> {
    if n_out > callee.stack.len() {
        Err(ErrorCode::StackUnderflow)
    } else {
        Ok(with_stack(f, below_n(rest, n_in) + top_n(callee.stack, n_out)))
    }
}

/// Runs `code` from word `pc` on frame `f` and store `st`, with `depth`
/// levels of `B` and `FOLD` still allowed.
pub open spec fn run(
    lim: Limits,
    code: Seq<u128>,
    pc: nat,
    f: Frame,
    st: StoreModel,
    depth: nat,
) -> Result<(Frame, StoreModel), ErrorCode>
    decreases depth, 2nat, code.len() - pc,
{
    if code.len() > lim.max_code {
        Err(ErrorCode::StackOverflow)
    } else if pc >= code.len() {
        Ok((f, st))
    } else {
        let op = code[pc as int];
        match arity_spec(op) {
            None => Err(ErrorCode::InvalidInstruction),
            Some(n) => if pc + 1 + n > code.len() {
                Err(ErrorCode::InvalidInstruction)
            } else {
                let next = (pc + 1 + n) as nat;
                let a0 = if n >= 1 {
                    code[pc + 1int]
                } else {
                    0
                };
                let a1 = if n >= 2 {
                    code[pc + 2int]
                } else {
                    0
                };
                if op == OP_B || op == OP_FOLD {
                    match call_spec(
                        lim,
                        op == OP_FOLD,
                        a0,
                        index_of_word(a1),
                        index_of_word(code[pc + 3int]),
                        index_of_word(code[pc + 4int]),
                        f,
                        st,
                        depth,
                    ) {
                        Err(e) => Err(e),
                        Ok((f2, st2)) => if f2.stack.len() > lim.max_stack {
                            Err(ErrorCode::StackOverflow)
                        } else {
                            run(lim, code, next, f2, st2, depth)
                        },
                    }
                } else if is_store_op(op) {
                    match store_step(op, a0, f, st) {
                        Err(e) => Err(e),
                        Ok((f2, st2)) => if f2.stack.len() > lim.max_stack {
                            Err(ErrorCode::StackOverflow)
                        } else {
                            run(lim, code, next, f2, st2, depth)
                        },
                    }
                } else {
                    match pure_step(op, a0, a1, f) {
                        Err(e) => Err(e),
                        Ok(f2) => if f2.stack.len() > lim.max_stack {
                            Err(ErrorCode::StackOverflow)
                        } else {
                            run(lim, code, next, f2, st, depth)
                        },
                    }
                }
            },
        }
    }
}

/// `B prg n_in n_out n_reg` (or, with `fold`, `FOLD prg n_in n_out n_reg`):
/// the program stored under `prg` runs in a fresh frame of `n_reg`
/// registers that receives the caller's top `n_in` operands (for a fold:
/// those below the container on top, which is consumed, and the program
/// runs once per element with the element pushed), and its top `n_out`
/// operands are handed back.
pub open spec fn call_spec(
    lim: Limits,
    fold: bool,
    prg: u128,
    n_in: nat,
    n_out: nat,
    n_reg: nat,
    f: Frame,
    st: StoreModel,
    depth: nat,
) -> Result<(Frame, StoreModel), ErrorCode>
    decreases depth, 1nat, 0nat,
{
    if depth == 0 || n_reg > lim.max_registers {
        Err(ErrorCode::StackOverflow)
    } else {
        match labels_at(st, prg) {
            Err(e) => Err(e),
            Ok(callee) => if !fold {
                if n_in > f.stack.len() {
                    Err(ErrorCode::StackUnderflow)
                } else {
                    let cf = Frame { stack: top_n(f.stack, n_in), regs: empty_regs(n_reg) };
                    match run(lim, callee, 0, cf, st, (depth - 1) as nat) {
                        Err(e) => Err(e),
                        Ok((cf2, st2)) => match return_to(f, f.stack, n_in, cf2, n_out) {
                            Err(e) => Err(e),
                            Ok(f2) => Ok((f2, st2)),
                        },
                    }
                }
            } else if f.stack.len() == 0 {
                Err(ErrorCode::StackUnderflow)
            } else {
                match fold_items(f.stack.last()) {
                    None => Err(ErrorCode::InvalidOperand),
                    Some(items) => {
                        let rest = f.stack.drop_last();
                        if items.len() > lim.max_fold {
                            Err(ErrorCode::StackOverflow)
                        } else if n_in > rest.len() {
                            Err(ErrorCode::StackUnderflow)
                        } else {
                            let cf = Frame { stack: top_n(rest, n_in), regs: empty_regs(n_reg) };
                            match run_fold(lim, callee, items, 0, cf, st, depth) {
                                Err(e) => Err(e),
                                Ok((cf2, st2)) => match return_to(f, rest, n_in, cf2, n_out) {
                                    Err(e) => Err(e),
                                    Ok(f2) => Ok((f2, st2)),
                                },
                            }
                        }
                    },
                }
            },
        }
    }
}

/// Runs `code` once for each of `items` from index `i` on, each time with
/// the item pushed on top of the frame.
pub open spec fn run_fold(
    lim: Limits,
    code: Seq<u128>,
    items: Seq<Value>,
    i: nat,
    f: Frame,
    st: StoreModel,
    depth: nat,
) -> Result<(Frame, StoreModel), ErrorCode>
    decreases depth, 0nat, items.len() - i,
{
    if i >= items.len() {
        Ok((f, st))
    } else if depth == 0 {
        Err(ErrorCode::StackOverflow)
    } else {
        match run(lim, code, 0, push_spec(f, items[i as int]), st, (depth - 1) as nat) {
            Err(e) => Err(e),
            Ok((f2, st2)) => run_fold(lim, code, items, i + 1, f2, st2, depth),
        }
    }
}

} // verus!
