//! What each instruction does to a frame, stated over operand values.

use vstd::prelude::*;

use crate::amount::{
    add_spec, div_spec, max_spec, min_spec, mul_spec, sqrt_spec, ssb_spec, sub_spec, Amount,
};
use crate::error::ErrorCode;
use crate::join::{
    expand_spec, filter_spec, join_add_spec, join_ssb_spec, labels_subset, union_spec,
};
use crate::labels::strictly_ascending;
use crate::operand::Value;

verus! {

/// A frame's operand stack (bottom first) and its registers.
pub struct Frame {
    pub stack: Seq<Value>,
    pub regs: Seq<Value>,
}

/// A componentwise operation of the arithmetic and comparison opcodes.
#[derive(Clone, Copy, PartialEq, Eq, Structural, Debug)]
pub enum ArithOp {
    Add,
    Sub,
    Ssb,
    Mul,
    Div,
    Min,
    Max,
}

/// `a op b`, or `None` where the checked operation fails.
pub open spec fn apply_spec(op: ArithOp, a: Amount, b: Amount) -> Option<Amount> {
    match op {
        ArithOp::Add => add_spec(a, b),
        ArithOp::Sub => sub_spec(a, b),
        ArithOp::Ssb => Some(ssb_spec(a, b)),
        ArithOp::Mul => mul_spec(a, b),
        ArithOp::Div => div_spec(a, b),
        ArithOp::Min => Some(min_spec(a, b)),
        ArithOp::Max => Some(max_spec(a, b)),
    }
}

/// The error that a failing `op` reports.
pub open spec fn op_error(op: ArithOp) -> ErrorCode {
    match op {
        ArithOp::Sub => ErrorCode::MathUnderflow,
        _ => ErrorCode::MathOverflow,
    }
}

/// `xs[i] op ys[i]` for every `i`, or the operation's error if any fails.
pub open spec fn elementwise(op: ArithOp, xs: Seq<Amount>, ys: Seq<Amount>) -> Result<
    Seq<Amount>,
    ErrorCode,
> {
    if forall|i: int| 0 <= i < xs.len() ==> (#[trigger] apply_spec(op, xs[i], ys[i])) is Some {
        Ok(Seq::new(xs.len(), |i: int| apply_spec(op, xs[i], ys[i])->Some_0))
    } else {
        Err(op_error(op))
    }
}

/// `ys` of the same length as `xs`, every entry `b`.
pub open spec fn splat(xs: Seq<Amount>, b: Amount) -> Seq<Amount> {
    Seq::new(xs.len(), |i: int| b)
}

/// The operand at depth `pos` (0 is the top).
pub open spec fn slot(s: Seq<Value>, pos: nat) -> Result<Value, ErrorCode> {
    if s.len() == 0 {
        Err(ErrorCode::StackUnderflow)
    } else if pos >= s.len() {
        Err(ErrorCode::OutOfRange)
    } else {
        Ok(s[s.len() - 1 - pos])
    }
}

pub open spec fn with_stack(f: Frame, s: Seq<Value>) -> Frame {
    Frame { stack: s, regs: f.regs }
}

/// `f` with its top operand replaced by `v`.
pub open spec fn set_top(f: Frame, v: Value) -> Frame {
    with_stack(f, f.stack.update(f.stack.len() - 1, v))
}

pub open spec fn push_spec(f: Frame, v: Value) -> Frame {
    with_stack(f, f.stack.push(v))
}

/// The top operand `A` combined in place with the operand `B` at depth `pos`.
pub open spec fn arith_spec(f: Frame, op: ArithOp, pos: nat) -> Result<Frame, ErrorCode> {
    match slot(f.stack, pos) {
        Err(e) => Err(e),
        Ok(b) => match (f.stack.last(), b) {
            (Value::Vector(xs), Value::Vector(ys)) => if xs.len() != ys.len() {
                Err(ErrorCode::NotAligned)
            } else {
                match elementwise(op, xs, ys) {
                    Ok(r) => Ok(set_top(f, Value::Vector(r))),
                    Err(e) => Err(e),
                }
            },
            (Value::Vector(xs), Value::Scalar(y)) => match elementwise(op, xs, splat(xs, y)) {
                Ok(r) => Ok(set_top(f, Value::Vector(r))),
                Err(e) => Err(e),
            },
            (Value::Scalar(x), Value::Scalar(y)) => match apply_spec(op, x, y) {
                Some(r) => Ok(set_top(f, Value::Scalar(r))),
                None => Err(op_error(op)),
            },
            _ => Err(ErrorCode::InvalidOperand),
        },
    }
}

/// The square root of the top operand, componentwise on a vector.
pub open spec fn sqrt_frame_spec(f: Frame) -> Result<Frame, ErrorCode> {
    if f.stack.len() == 0 {
        Err(ErrorCode::StackUnderflow)
    } else {
        match f.stack.last() {
            Value::Vector(xs) => Ok(set_top(f, Value::Vector(xs.map_values(|x: Amount| sqrt_spec(x))))),
            Value::Scalar(x) => Ok(set_top(f, Value::Scalar(sqrt_spec(x)))),
            _ => Err(ErrorCode::InvalidOperand),
        }
    }
}

/// The sum of the raw values of `xs`.
pub open spec fn total(xs: Seq<Amount>) -> nat
    decreases xs.len(),
{
    if xs.len() == 0 {
        0
    } else {
        total(xs.drop_last()) + xs.last().0 as nat
    }
}

/// The least of `xs`, or the largest amount if there is none.
pub open spec fn least(xs: Seq<Amount>) -> Amount
    decreases xs.len(),
{
    if xs.len() == 0 {
        Amount(u128::MAX)
    } else {
        min_spec(least(xs.drop_last()), xs.last())
    }
}

/// The greatest of `xs`, or zero if there is none.
pub open spec fn greatest(xs: Seq<Amount>) -> Amount
    decreases xs.len(),
{
    if xs.len() == 0 {
        Amount(0)
    } else {
        max_spec(greatest(xs.drop_last()), xs.last())
    }
}

/// The three aggregations of a vector.
#[derive(Clone, Copy, PartialEq, Eq, Structural, Debug)]
pub enum Aggregate {
    Sum,
    Least,
    Greatest,
}

pub open spec fn aggregate_value(agg: Aggregate, xs: Seq<Amount>) -> Option<Amount> {
    match agg {
        Aggregate::Sum => if total(xs) <= u128::MAX {
            Some(Amount(total(xs) as u128))
        } else {
            None
        },
        Aggregate::Least => Some(least(xs)),
        Aggregate::Greatest => Some(greatest(xs)),
    }
}

/// Pops a vector and pushes its aggregate.
pub open spec fn aggregate_spec(f: Frame, agg: Aggregate) -> Result<Frame, ErrorCode> {
    if f.stack.len() == 0 {
        Err(ErrorCode::StackUnderflow)
    } else {
        match f.stack.last() {
            Value::Vector(xs) => match aggregate_value(agg, xs) {
                Some(r) => Ok(with_stack(f, f.stack.drop_last().push(Value::Scalar(r)))),
                None => Err(ErrorCode::MathOverflow),
            },
            _ => Err(ErrorCode::InvalidOperand),
        }
    }
}

/// Pushes a copy of the operand at depth `pos`.
pub open spec fn ldd_spec(f: Frame, pos: nat) -> Result<Frame, ErrorCode> {
    match slot(f.stack, pos) {
        Ok(v) => Ok(push_spec(f, v)),
        Err(e) => Err(e),
    }
}

/// Pushes a copy of register `r`.
pub open spec fn ldr_spec(f: Frame, r: nat) -> Result<Frame, ErrorCode> {
    if r >= f.regs.len() {
        Err(ErrorCode::OutOfRange)
    } else if f.regs[r as int] is Empty {
        Err(ErrorCode::InvalidOperand)
    } else {
        Ok(push_spec(f, f.regs[r as int]))
    }
}

/// Pops the top operand into register `r`.
pub open spec fn str_spec(f: Frame, r: nat) -> Result<Frame, ErrorCode> {
    if r >= f.regs.len() {
        Err(ErrorCode::OutOfRange)
    } else if f.stack.len() == 0 {
        Err(ErrorCode::StackUnderflow)
    } else {
        Ok(Frame { stack: f.stack.drop_last(), regs: f.regs.update(r as int, f.stack.last()) })
    }
}

/// The top `n` operands, deepest first.
pub open spec fn top_n(s: Seq<Value>, n: nat) -> Seq<Value> {
    s.subrange(s.len() - n, s.len() as int)
}

/// The stack below the top `n` operands.
pub open spec fn below_n(s: Seq<Value>, n: nat) -> Seq<Value> {
    s.subrange(0, s.len() - n)
}

/// Replaces the top `n` scalars by one vector of them, deepest first.
pub open spec fn pkv_spec(f: Frame, n: nat) -> Result<Frame, ErrorCode> {
    if n > f.stack.len() {
        Err(ErrorCode::StackUnderflow)
    } else if exists|i: int| 0 <= i < n && !(#[trigger] top_n(f.stack, n)[i] is Scalar) {
        Err(ErrorCode::InvalidOperand)
    } else {
        Ok(
            with_stack(
                f,
                below_n(f.stack, n).push(
                    Value::Vector(top_n(f.stack, n).map_values(|v: Value| v->Scalar_0)),
                ),
            ),
        )
    }
}

/// Replaces the top `n` labels by one label sequence of them, deepest first.
pub open spec fn pkl_spec(f: Frame, n: nat) -> Result<Frame, ErrorCode> {
    if n > f.stack.len() {
        Err(ErrorCode::StackUnderflow)
    } else if exists|i: int| 0 <= i < n && !(#[trigger] top_n(f.stack, n)[i] is Label) {
        Err(ErrorCode::InvalidOperand)
    } else {
        Ok(
            with_stack(
                f,
                below_n(f.stack, n).push(
                    Value::Labels(top_n(f.stack, n).map_values(|v: Value| v->Label_0)),
                ),
            ),
        )
    }
}

/// Replaces the container on top by its elements, the first deepest.
pub open spec fn unpk_spec(f: Frame) -> Result<Frame, ErrorCode> {
    if f.stack.len() == 0 {
        Err(ErrorCode::StackUnderflow)
    } else {
        match f.stack.last() {
            Value::Vector(xs) => Ok(
                with_stack(f, f.stack.drop_last() + xs.map_values(|x: Amount| Value::Scalar(x))),
            ),
            Value::Labels(ls) => Ok(
                with_stack(f, f.stack.drop_last() + ls.map_values(|x: u128| Value::Label(x))),
            ),
            _ => Err(ErrorCode::InvalidOperand),
        }
    }
}

/// The columns `cols` (each of length `rows`) read as rows.
pub open spec fn transpose_values(cols: Seq<Seq<Amount>>, rows: nat) -> Seq<Seq<Amount>> {
    Seq::new(rows, |r: int| Seq::new(cols.len(), |c: int| cols[c][r]))
}

/// Replaces the top `n` vectors, read as the columns of a matrix, by its rows.
pub open spec fn transpose_spec(f: Frame, n: nat) -> Result<Frame, ErrorCode> {
    if n == 0 {
        Err(ErrorCode::InvalidOperand)
    } else if n == 1 {
        unpk_spec(f)
    } else if n > f.stack.len() {
        Err(ErrorCode::StackUnderflow)
    } else if exists|i: int| 0 <= i < n && !(#[trigger] top_n(f.stack, n)[i] is Vector) {
        Err(ErrorCode::InvalidOperand)
    } else {
        let cols = top_n(f.stack, n).map_values(|v: Value| v->Vector_0);
        if exists|i: int| 0 <= i < n && (#[trigger] cols[i]).len() != cols[0].len() {
            Err(ErrorCode::InvalidOperand)
        } else {
            Ok(
                with_stack(
                    f,
                    below_n(f.stack, n) + transpose_values(cols, cols[0].len()).map_values(
                        |r: Seq<Amount>| Value::Vector(r),
                    ),
                ),
            )
        }
    }
}

/// Pushes a vector as long as the container at depth `pos`, every entry `fill`.
pub open spec fn fill_spec(f: Frame, pos: nat, fill: Amount) -> Result<Frame, ErrorCode> {
    match slot(f.stack, pos) {
        Err(e) => Err(e),
        Ok(Value::Vector(xs)) => Ok(push_spec(f, Value::Vector(Seq::new(xs.len(), |i: int| fill)))),
        Ok(Value::Labels(ls)) => Ok(push_spec(f, Value::Vector(Seq::new(ls.len(), |i: int| fill)))),
        Ok(_) => Err(ErrorCode::InvalidOperand),
    }
}

/// Appends the raw amount `w` to the vector on top.
pub open spec fn vpush_spec(f: Frame, w: u128) -> Result<Frame, ErrorCode> {
    if f.stack.len() == 0 {
        Err(ErrorCode::StackUnderflow)
    } else {
        match f.stack.last() {
            Value::Vector(xs) => Ok(set_top(f, Value::Vector(xs.push(Amount(w))))),
            _ => Err(ErrorCode::InvalidOperand),
        }
    }
}

/// Appends the label `w` to the label sequence on top.
pub open spec fn lpush_spec(f: Frame, w: u128) -> Result<Frame, ErrorCode> {
    if f.stack.len() == 0 {
        Err(ErrorCode::StackUnderflow)
    } else {
        match f.stack.last() {
            Value::Labels(ls) => Ok(set_top(f, Value::Labels(ls.push(w)))),
            _ => Err(ErrorCode::InvalidOperand),
        }
    }
}

/// Removes the last amount of the vector on top and pushes it above.
pub open spec fn vpop_spec(f: Frame) -> Result<Frame, ErrorCode> {
    if f.stack.len() == 0 {
        Err(ErrorCode::StackUnderflow)
    } else {
        match f.stack.last() {
            Value::Vector(xs) => if xs.len() == 0 {
                Err(ErrorCode::OutOfRange)
            } else {
                Ok(push_spec(set_top(f, Value::Vector(xs.drop_last())), Value::Scalar(xs.last())))
            },
            _ => Err(ErrorCode::InvalidOperand),
        }
    }
}

/// Removes the last label of the label sequence on top and pushes it above.
pub open spec fn lpop_spec(f: Frame) -> Result<Frame, ErrorCode> {
    if f.stack.len() == 0 {
        Err(ErrorCode::StackUnderflow)
    } else {
        match f.stack.last() {
            Value::Labels(ls) => if ls.len() == 0 {
                Err(ErrorCode::OutOfRange)
            } else {
                Ok(push_spec(set_top(f, Value::Labels(ls.drop_last())), Value::Label(ls.last())))
            },
            _ => Err(ErrorCode::InvalidOperand),
        }
    }
}

/// Drops the top `n` operands.
pub open spec fn popn_spec(f: Frame, n: nat) -> Result<Frame, ErrorCode> {
    if n > f.stack.len() {
        Err(ErrorCode::StackUnderflow)
    } else {
        Ok(with_stack(f, below_n(f.stack, n)))
    }
}

/// Swaps the top operand with the one at depth `pos`.
pub open spec fn swap_spec(f: Frame, pos: nat) -> Result<Frame, ErrorCode> {
    match slot(f.stack, pos) {
        Err(e) => Err(e),
        Ok(b) => {
            let top = f.stack.len() - 1;
            Ok(with_stack(f, f.stack.update(top - pos, f.stack.last()).update(top, b)))
        },
    }
}

/// Replaces the label sequence on top by its sorted union with the one at depth `pos`.
pub open spec fn lunion_spec(f: Frame, pos: nat) -> Result<Frame, ErrorCode> {
    match slot(f.stack, pos) {
        Err(e) => Err(e),
        Ok(b) => match (f.stack.last(), b) {
            (Value::Labels(la), Value::Labels(lb)) => Ok(set_top(f, Value::Labels(union_spec(la, lb)))),
            _ => Err(ErrorCode::InvalidOperand),
        },
    }
}

/// The four join operators.
#[derive(Clone, Copy, PartialEq, Eq, Structural, Debug)]
pub enum JoinOp {
    Add,
    Ssb,
    Expand,
    Filter,
}

/// The operands a join reads: the vector on top, the vector below it (joins
/// that combine two vectors only), and the label sequences at `pa` and `pb`.
pub open spec fn join_operands(f: Frame, op: JoinOp, pa: nat, pb: nat) -> Result<
    (Seq<Amount>, Seq<Amount>, Seq<u128>, Seq<u128>),
    ErrorCode,
> {
    let below = if combines(op) {
        slot(f.stack, 1)
    } else {
        Ok(Value::Vector(Seq::empty()))
    };
    if pa < 2 || pb < 2 {
        Err(ErrorCode::InvalidOperand)
    } else if below is Err {
        Err(below->Err_0)
    } else if slot(f.stack, pa) is Err {
        Err(slot(f.stack, pa)->Err_0)
    } else if slot(f.stack, pb) is Err {
        Err(slot(f.stack, pb)->Err_0)
    } else {
        match (f.stack.last(), below->Ok_0, slot(f.stack, pa)->Ok_0, slot(f.stack, pb)->Ok_0) {
            (Value::Vector(top), Value::Vector(under), Value::Labels(la), Value::Labels(lb)) => Ok(
                (top, under, la, lb),
            ),
            _ => Err(ErrorCode::InvalidOperand),
        }
    }
}

/// A join on labels `la` (at `pa`) and `lb` (at `pb`). For the joins that
/// combine two vectors, the carrier, aligned with `la`, is the vector below
/// the top and the addend, aligned with `lb`, is on top; the result replaces
/// the top. For expand and filter, the vector on top, aligned with `la`, is
/// re-aligned with `lb`.
pub open spec fn join_spec(f: Frame, op: JoinOp, pa: nat, pb: nat) -> Result<Frame, ErrorCode> {
    if pa == pb {
        match op {
            JoinOp::Add => arith_spec(f, ArithOp::Add, 1),
            JoinOp::Ssb => match slot(f.stack, 1) {
                Err(e) => Err(e),
                Ok(b) => match (f.stack.last(), b) {
                    (Value::Vector(addend), Value::Vector(carrier)) => if addend.len()
                        != carrier.len() {
                        Err(ErrorCode::NotAligned)
                    } else {
                        Ok(
                            set_top(
                                f,
                                Value::Vector(
                                    Seq::new(
                                        carrier.len(),
                                        |i: int| ssb_spec(carrier[i], addend[i]),
                                    ),
                                ),
                            ),
                        )
                    },
                    _ => Err(ErrorCode::InvalidOperand),
                },
            },
            _ => Ok(f),
        }
    } else {
        match join_operands(f, op, pa, pb) {
            Err(e) => Err(e),
            Ok((top, under, la, lb)) => match join_values_spec(op, top, under, la, lb) {
                Ok(v) => Ok(set_top(f, Value::Vector(v))),
                Err(e) => Err(e),
            },
        }
    }
}

/// Whether the join combines two vectors (add, saturating subtract) rather
/// than re-aligning one (expand, filter).
pub open spec fn combines(op: JoinOp) -> bool {
    op == JoinOp::Add || op == JoinOp::Ssb
}

/// The vector that a join with distinct label positions leaves on top, from
/// the vector on top, the one below it, and the two label sequences.
pub open spec fn join_values_spec(
    op: JoinOp,
    top: Seq<Amount>,
    under: Seq<Amount>,
    la: Seq<u128>,
    lb: Seq<u128>,
) -> Result<Seq<Amount>, ErrorCode> {
    let sorted = strictly_ascending(la) && strictly_ascending(lb);
    match op {
        JoinOp::Add => if under.len() != la.len() || top.len() != lb.len() {
            Err(ErrorCode::NotAligned)
        } else if !sorted {
            Err(ErrorCode::NotFound)
        } else if !labels_subset(lb, la) {
            Err(ErrorCode::MathUnderflow)
        } else if forall|i: int|
            0 <= i < la.len() ==> (#[trigger] join_add_spec(la, lb, under, top)[i]) is Some {
            Ok(join_add_spec(la, lb, under, top).map_values(|x: Option<Amount>| x->Some_0))
        } else {
            Err(ErrorCode::MathOverflow)
        },
        JoinOp::Ssb => if under.len() != la.len() || top.len() != lb.len() {
            Err(ErrorCode::NotAligned)
        } else if !sorted {
            Err(ErrorCode::NotFound)
        } else if !labels_subset(lb, la) {
            Err(ErrorCode::MathUnderflow)
        } else {
            Ok(join_ssb_spec(la, lb, under, top))
        },
        JoinOp::Expand => if top.len() != la.len() {
            Err(ErrorCode::NotAligned)
        } else if !sorted || !labels_subset(la, lb) {
            Err(ErrorCode::NotFound)
        } else {
            Ok(expand_spec(la, lb, top))
        },
        JoinOp::Filter => if top.len() != la.len() {
            Err(ErrorCode::NotAligned)
        } else if !sorted || !labels_subset(lb, la) {
            Err(ErrorCode::NotFound)
        } else {
            Ok(filter_spec(la, lb, top))
        },
    }
}

} // verus!
