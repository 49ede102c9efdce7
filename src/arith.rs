//! Componentwise arithmetic and aggregation over amounts.

use vstd::prelude::*;

use crate::amount::{sqrt_spec, Amount};
use crate::error::ErrorCode;
use crate::semantics::{
    aggregate_value, apply_spec, elementwise, greatest, least, op_error, splat, total, Aggregate,
    ArithOp,
};

verus! {

/// `a op b` with the checked primitives of `Amount`.
pub fn apply(op: ArithOp, a: Amount, b: Amount) -> (r: Option<Amount>)
    ensures
        r == apply_spec(op, a, b),
{
    match op {
        ArithOp::Add => a.checked_add(b),
        ArithOp::Sub => a.checked_sub(b),
        ArithOp::Ssb => Some(a.saturating_sub(b)),
        ArithOp::Mul => a.checked_mul(b),
        ArithOp::Div => a.checked_div(b),
        ArithOp::Min => Some(a.min(b)),
        ArithOp::Max => Some(a.max(b)),
    }
}

/// The error that a failing `op` reports.
pub fn error_of(op: ArithOp) -> (r: ErrorCode)
    ensures
        r == op_error(op),
{
    match op {
        ArithOp::Sub => ErrorCode::MathUnderflow,
        _ => ErrorCode::MathOverflow,
    }
}

/// `xs[i] op ys[i]` for every `i`.
pub fn elementwise_exec(op: ArithOp, xs: &Vec<Amount>, ys: &Vec<Amount>) -> (r: Result<
    Vec<Amount>,
    ErrorCode,
>)
    requires
        xs@.len() == ys@.len(),
    ensures
        match r {
            Ok(v) => elementwise(op, xs@, ys@) == Ok::<Seq<Amount>, ErrorCode>(v@),
            Err(e) => elementwise(op, xs@, ys@) == Err::<Seq<Amount>, ErrorCode>(e),
        },
{
    let n = xs.len();
    let mut out: Vec<Amount> = Vec::new();
    let mut i: usize = 0;
    while i < n
        invariant
            n == xs@.len(),
            n == ys@.len(),
            i <= n,
            out@.len() == i,
            forall|k: int|
                0 <= k < i ==> (#[trigger] apply_spec(op, xs@[k], ys@[k])) is Some && out@[k]
                    == apply_spec(op, xs@[k], ys@[k])->Some_0,
        decreases n - i,
    {
        match apply(op, xs[i], ys[i]) {
            Some(v) => out.push(v),
            None => {
                return Err(error_of(op));
            },
        }
        i = i + 1;
    }
    proof {
        let expect = Seq::new(xs@.len(), |k: int| apply_spec(op, xs@[k], ys@[k])->Some_0);
        assert(out@ =~= expect);
    }
    Ok(out)
}

/// `xs[i] op y` for every `i`.
pub fn broadcast_exec(op: ArithOp, xs: &Vec<Amount>, y: Amount) -> (r: Result<Vec<Amount>, ErrorCode>)
    ensures
        match r {
            Ok(v) => elementwise(op, xs@, splat(xs@, y)) == Ok::<Seq<Amount>, ErrorCode>(v@),
            Err(e) => elementwise(op, xs@, splat(xs@, y)) == Err::<Seq<Amount>, ErrorCode>(e),
        },
{
    let ghost ys = splat(xs@, y);
    let n = xs.len();
    let mut out: Vec<Amount> = Vec::new();
    let mut i: usize = 0;
    while i < n
        invariant
            n == xs@.len(),
            ys == splat(xs@, y),
            i <= n,
            out@.len() == i,
            forall|k: int|
                0 <= k < i ==> (#[trigger] apply_spec(op, xs@[k], ys[k])) is Some && out@[k]
                    == apply_spec(op, xs@[k], ys[k])->Some_0,
        decreases n - i,
    {
        match apply(op, xs[i], y) {
            Some(v) => out.push(v),
            None => {
                assert(ys[i as int] == y);
                return Err(error_of(op));
            },
        }
        i = i + 1;
    }
    proof {
        let expect = Seq::new(xs@.len(), |k: int| apply_spec(op, xs@[k], ys[k])->Some_0);
        assert(out@ =~= expect);
    }
    Ok(out)
}

/// The square root of every amount.
pub fn sqrt_all(xs: &Vec<Amount>) -> (r: Vec<Amount>)
    ensures
        r@ == xs@.map_values(|x: Amount| sqrt_spec(x)),
{
    let n = xs.len();
    let mut out: Vec<Amount> = Vec::new();
    let mut i: usize = 0;
    while i < n
        invariant
            n == xs@.len(),
            i <= n,
            out@ =~= xs@.map_values(|x: Amount| sqrt_spec(x)).take(i as int),
        decreases n - i,
    {
        match xs[i].checked_sqrt() {
            Some(v) => out.push(v),
            None => out.push(Amount(0)),
        }
        i = i + 1;
    }
    assert(xs@.map_values(|x: Amount| sqrt_spec(x)).take(n as int) =~= xs@.map_values(
        |x: Amount| sqrt_spec(x),
    ));
    out
}

pub proof fn lemma_total_prefix(xs: Seq<Amount>, i: int)
    requires
        0 <= i <= xs.len(),
    ensures
        total(xs.take(i)) <= total(xs),
    decreases xs.len() - i,
{
    if i < xs.len() {
        lemma_total_prefix(xs, i + 1);
        assert(xs.take(i + 1).drop_last() =~= xs.take(i));
    } else {
        assert(xs.take(i) =~= xs);
    }
}

/// The sum, least or greatest of `xs`.
pub fn aggregate_exec(agg: Aggregate, xs: &Vec<Amount>) -> (r: Option<Amount>)
    ensures
        r == aggregate_value(agg, xs@),
{
    let n = xs.len();
    let mut acc: Amount = match agg {
        Aggregate::Sum => Amount(0),
        Aggregate::Least => Amount(u128::MAX),
        Aggregate::Greatest => Amount(0),
    };
    let mut i: usize = 0;
    proof {
        assert(xs@.take(0) =~= Seq::<Amount>::empty());
    }
    while i < n
        invariant
            n == xs@.len(),
            i <= n,
            agg == Aggregate::Sum ==> acc.0 as nat == total(xs@.take(i as int)),
            agg == Aggregate::Least ==> acc == least(xs@.take(i as int)),
            agg == Aggregate::Greatest ==> acc == greatest(xs@.take(i as int)),
        decreases n - i,
    {
        let x = xs[i];
        proof {
            assert(xs@.take(i + 1).drop_last() =~= xs@.take(i as int));
        }
        match agg {
            Aggregate::Sum => match acc.checked_add(x) {
                Some(s) => {
                    acc = s;
                },
                None => {
                    proof {
                        lemma_total_prefix(xs@, i + 1);
                    }
                    return None;
                },
            },
            Aggregate::Least => {
                acc = acc.min(x);
            },
            Aggregate::Greatest => {
                acc = acc.max(x);
            },
        }
        i = i + 1;
    }
    assert(xs@.take(n as int) =~= xs@);
    Some(acc)
}

} // verus!
