//! Properties that relate several instructions or whole runs.

use vstd::prelude::*;

use crate::amount::{add_spec, ssb_spec, Amount};
use crate::error::ErrorCode;
use crate::interp::{
    call_spec, empty_regs, fold_items, is_store_op, pure_step, run, run_fold, store_step, Limits,
};
use crate::join::{join_add_spec, join_ssb_spec, lemma_index_of_ascending, position_of};
use crate::labels::strictly_ascending;
use crate::opcodes::{
    arity_spec, index_of_word, OP_ADD, OP_B, OP_FOLD, OP_LDL, OP_LDS, OP_LDV, OP_POPN, OP_STL, OP_STS,
    OP_STV, OP_SWAP,
};
use crate::operand::Value;
use crate::semantics::{
    aggregate_spec, apply_spec, arith_spec, below_n, join_spec, push_spec, set_top, slot, top_n,
    total, transpose_spec, transpose_values, Aggregate, ArithOp, Frame, JoinOp,
};
use crate::store::{labels_at, StoreModel, StoreWrite};

verus! {

/// On the same labels, a join looks every label up at its own index.
pub proof fn lemma_position_of_self(l: Seq<u128>, i: int)
    requires
        strictly_ascending(l),
        0 <= i < l.len(),
    ensures
        position_of(l, l[i]) == Some(i),
{
    lemma_index_of_ascending(l, i);
}

/// When both label positions hold the same strictly ascending labels, the
/// join add `jadd` is the componentwise vector add of the two vectors on
/// top, and the join saturating subtract `jssb` is the componentwise
/// saturating subtract of the top vector from the one below it.
pub proof fn law_join_on_equal_labels(f: Frame, pa: nat, pb: nat, l: Seq<u128>)
    requires
        2 <= pa < f.stack.len(),
        2 <= pb < f.stack.len(),
        pa != pb,
        f.stack[f.stack.len() - 1 - pa] == Value::Labels(l),
        f.stack[f.stack.len() - 1 - pb] == Value::Labels(l),
        strictly_ascending(l),
        f.stack.last() is Vector,
        f.stack[f.stack.len() - 2] is Vector,
        f.stack.last()->Vector_0.len() == l.len(),
        f.stack[f.stack.len() - 2]->Vector_0.len() == l.len(),
    ensures
        join_spec(f, JoinOp::Add, pa, pb) == arith_spec(f, ArithOp::Add, 1),
        join_spec(f, JoinOp::Ssb, pa, pb) == Ok::<Frame, ErrorCode>(
            set_top(
                f,
                Value::Vector(
                    Seq::new(
                        l.len(),
                        |i: int|
                            ssb_spec(
                                f.stack[f.stack.len() - 2]->Vector_0[i],
                                f.stack.last()->Vector_0[i],
                            ),
                    ),
                ),
            ),
        ),
{
    let t = f.stack.last()->Vector_0;
    let u = f.stack[f.stack.len() - 2]->Vector_0;
    assert(slot(f.stack, 1) == Ok::<Value, ErrorCode>(Value::Vector(u)));
    assert(slot(f.stack, pa) == Ok::<Value, ErrorCode>(Value::Labels(l)));
    assert(slot(f.stack, pb) == Ok::<Value, ErrorCode>(Value::Labels(l)));
    assert forall|k: int| 0 <= k < l.len() implies l.contains(#[trigger] l[k]) by {
        lemma_position_of_self(l, k);
    }
    let ra = join_add_spec(l, l, u, t);
    assert forall|i: int| 0 <= i < l.len() implies #[trigger] ra[i] == apply_spec(
        ArithOp::Add,
        t[i],
        u[i],
    ) by {
        lemma_position_of_self(l, i);
    }
    if forall|i: int| 0 <= i < l.len() ==> (#[trigger] ra[i]) is Some {
        assert forall|i: int| 0 <= i < t.len() implies (#[trigger] apply_spec(
            ArithOp::Add,
            t[i],
            u[i],
        )) is Some by {
            assert(ra[i] is Some);
        }
        assert(ra.map_values(|x: Option<Amount>| x->Some_0) =~= Seq::new(
            t.len(),
            |i: int| apply_spec(ArithOp::Add, t[i], u[i])->Some_0,
        ));
    } else {
        let i = choose|i: int| 0 <= i < l.len() && !((#[trigger] ra[i]) is Some);
        assert(!(apply_spec(ArithOp::Add, t[i], u[i]) is Some));
    }
    let rs = join_ssb_spec(l, l, u, t);
    assert forall|i: int| 0 <= i < l.len() implies #[trigger] rs[i] == ssb_spec(u[i], t[i]) by {
        lemma_position_of_self(l, i);
    }
    assert(rs =~= Seq::new(l.len(), |i: int| ssb_spec(u[i], t[i])));
}

/// Transposing the top `n` vectors, all of length `m`, and then
/// transposing the `m` vectors that result gives back the frame.
pub proof fn law_transpose_involution(f: Frame, n: nat, m: nat)
    requires
        n >= 2,
        m >= 2,
        n <= f.stack.len(),
        forall|i: int|
            f.stack.len() - n <= i < f.stack.len() ==> (#[trigger] f.stack[i]) is Vector
                && f.stack[i]->Vector_0.len() == m,
    ensures
        transpose_spec(f, n) is Ok,
        transpose_spec(transpose_spec(f, n)->Ok_0, m) == Ok::<Frame, ErrorCode>(f),
{
    let len = f.stack.len();
    let top = top_n(f.stack, n);
    let below = below_n(f.stack, n);
    assert forall|i: int| 0 <= i < n implies (#[trigger] top[i]) is Vector by {
        assert(top[i] == f.stack[len - n + i]);
    }
    let cols = top.map_values(|v: Value| v->Vector_0);
    assert forall|i: int| 0 <= i < n implies (#[trigger] cols[i]).len() == m by {
        assert(top[i] == f.stack[len - n + i]);
    }
    assert(cols[0].len() == m);
    let rows = transpose_values(cols, m);
    let pushed = rows.map_values(|r: Seq<Amount>| Value::Vector(r));
    let f1 = Frame { stack: below + pushed, regs: f.regs };
    assert(transpose_spec(f, n) == Ok::<Frame, ErrorCode>(f1));
    let top1 = top_n(f1.stack, m);
    assert(top1 =~= pushed);
    assert(below_n(f1.stack, m) =~= below);
    assert forall|i: int| 0 <= i < m implies (#[trigger] top1[i]) is Vector by {
        assert(top1[i] == pushed[i]);
    }
    let cols1 = top1.map_values(|v: Value| v->Vector_0);
    assert(cols1 =~= rows);
    assert forall|i: int| 0 <= i < m implies (#[trigger] cols1[i]).len() == n by {
        assert(cols1[i] == rows[i]);
    }
    let back = transpose_values(cols1, n);
    assert forall|r: int| 0 <= r < n implies #[trigger] back[r] == cols[r] by {
        assert(back[r] =~= cols[r]);
    }
    let pushed2 = back.map_values(|r: Seq<Amount>| Value::Vector(r));
    assert forall|i: int| 0 <= i < n implies #[trigger] pushed2[i] == top[i] by {
        assert(back[i] == cols[i]);
        assert(top[i] == f.stack[len - n + i]);
    }
    assert(pushed2 =~= top);
    assert(below + top =~= f.stack);
    assert(transpose_spec(f1, m) == Ok::<Frame, ErrorCode>(Frame { stack: below + pushed2, regs: f.regs }));
}

/// A fold body that adds each element to an accumulator below it:
/// `ADD 1; SWAP 1; POPN 1`.
pub open spec fn accumulate_code() -> Seq<u128> {
    seq![OP_ADD, 1, OP_SWAP, 1, OP_POPN, 1]
}

/// One pass of the accumulating body on accumulator `acc` and element `x`.
pub proof fn lemma_accumulate_step(lim: Limits, regs: Seq<Value>, acc: Amount, x: Amount, st: StoreModel, d: nat)
    requires
        lim.max_code >= 6,
        lim.max_stack >= 2,
    ensures
        run(
            lim,
            accumulate_code(),
            0,
            Frame { stack: seq![Value::Scalar(acc), Value::Scalar(x)], regs },
            st,
            d,
        ) == match add_spec(x, acc) {
            Some(s) => Ok::<(Frame, StoreModel), ErrorCode>((Frame { stack: seq![Value::Scalar(s)], regs }, st)),
            None => Err::<(Frame, StoreModel), ErrorCode>(ErrorCode::MathOverflow),
        },
{
    let code = accumulate_code();
    let f0 = Frame { stack: seq![Value::Scalar(acc), Value::Scalar(x)], regs };
    assert(code[0] == OP_ADD && code[1] == 1 && code[2] == OP_SWAP && code[3] == 1 && code[4] == OP_POPN && code[5] == 1);
    assert(arity_spec(OP_ADD) == Some(1nat));
    assert(arity_spec(OP_SWAP) == Some(1nat));
    assert(arity_spec(OP_POPN) == Some(1nat));
    assert(index_of_word(1) == 1);
    assert(slot(f0.stack, 1) == Ok::<Value, ErrorCode>(Value::Scalar(acc)));
    assert(pure_step(OP_ADD, 1, 0, f0) == arith_spec(f0, ArithOp::Add, 1));
    match add_spec(x, acc) {
        Some(s) => {
            let f1 = set_top(f0, Value::Scalar(s));
            assert(arith_spec(f0, ArithOp::Add, 1) == Ok::<Frame, ErrorCode>(f1));
            assert(f1.stack =~= seq![Value::Scalar(acc), Value::Scalar(s)]);
            let f2 = Frame { stack: seq![Value::Scalar(s), Value::Scalar(acc)], regs };
            assert(slot(f1.stack, 1) == Ok::<Value, ErrorCode>(Value::Scalar(acc)));
            assert(f1.stack.update(0, f1.stack.last()).update(1, Value::Scalar(acc)) =~= f2.stack);
            assert(pure_step(OP_SWAP, 1, 0, f1) == Ok::<Frame, ErrorCode>(f2));
            let f3 = Frame { stack: seq![Value::Scalar(s)], regs };
            assert(below_n(f2.stack, 1) =~= f3.stack);
            assert(pure_step(OP_POPN, 1, 0, f2) == Ok::<Frame, ErrorCode>(f3));
            assert(run(lim, code, 6, f3, st, d) == Ok::<(Frame, StoreModel), ErrorCode>((f3, st)));
            assert(run(lim, code, 4, f2, st, d) == run(lim, code, 6, f3, st, d));
            assert(run(lim, code, 2, f1, st, d) == run(lim, code, 4, f2, st, d));
            assert(run(lim, code, 0, f0, st, d) == run(lim, code, 2, f1, st, d));
        },
        None => {
            assert(arith_spec(f0, ArithOp::Add, 1) == Err::<Frame, ErrorCode>(ErrorCode::MathOverflow));
            assert(run(lim, code, 0, f0, st, d) == Err::<(Frame, StoreModel), ErrorCode>(ErrorCode::MathOverflow));
        },
    }
}

/// The accumulator after the fold has visited the first `i` elements.
pub open spec fn partial_sum_frame(xs: Seq<Amount>, i: nat, regs: Seq<Value>) -> Frame {
    Frame { stack: seq![Value::Scalar(Amount(total(xs.take(i as int)) as u128))], regs }
}

pub proof fn lemma_accumulate_fold(
    lim: Limits,
    xs: Seq<Amount>,
    i: nat,
    regs: Seq<Value>,
    st: StoreModel,
    depth: nat,
)
    requires
        lim.max_code >= 6,
        lim.max_stack >= 2,
        i <= xs.len(),
        depth >= 1,
        total(xs.take(i as int)) <= u128::MAX,
    ensures
        run_fold(
            lim,
            accumulate_code(),
            xs.map_values(|x: Amount| Value::Scalar(x)),
            i,
            partial_sum_frame(xs, i, regs),
            st,
            depth,
        ) == (if total(xs) <= u128::MAX {
            Ok::<(Frame, StoreModel), ErrorCode>((partial_sum_frame(xs, xs.len(), regs), st))
        } else {
            Err::<(Frame, StoreModel), ErrorCode>(ErrorCode::MathOverflow)
        }),
    decreases xs.len() - i,
{
    let items = xs.map_values(|x: Amount| Value::Scalar(x));
    if i >= xs.len() {
        assert(xs.take(i as int) =~= xs);
    } else {
        let acc = Amount(total(xs.take(i as int)) as u128);
        let x = xs[i as int];
        let f = partial_sum_frame(xs, i, regs);
        assert(push_spec(f, items[i as int]).stack =~= seq![Value::Scalar(acc), Value::Scalar(x)]);
        lemma_accumulate_step(lim, regs, acc, x, st, (depth - 1) as nat);
        assert(xs.take(i + 1int).drop_last() =~= xs.take(i as int));
        assert(total(xs.take(i + 1int)) == total(xs.take(i as int)) + x.0);
        match add_spec(x, acc) {
            Some(sum) => {
                assert(sum.0 == total(xs.take(i + 1int)));
                lemma_accumulate_fold(lim, xs, (i + 1) as nat, regs, st, depth);
                assert(Frame { stack: seq![Value::Scalar(sum)], regs } == partial_sum_frame(xs, (i + 1) as nat, regs));
            },
            None => {
                crate::arith::lemma_total_prefix(xs, i + 1int);
            },
        }
    }
}

/// Folding the accumulating body (`ADD 1; SWAP 1; POPN 1`) over a vector,
/// from a zero accumulator, gives what `VSUM` gives on the same vector:
/// the sum, or `MathOverflow` where the sum does not fit.
pub proof fn law_fold_sum(
    lim: Limits,
    prg: u128,
    n_reg: nat,
    s: Seq<Value>,
    regs: Seq<Value>,
    xs: Seq<Amount>,
    st: StoreModel,
    depth: nat,
)
    requires
        lim.max_code >= 6,
        lim.max_stack >= 2,
        depth >= 1,
        n_reg <= lim.max_registers,
        xs.len() <= lim.max_fold,
        labels_at(st, prg) == Ok::<Seq<u128>, ErrorCode>(accumulate_code()),
    ensures
        call_spec(
            lim,
            true,
            prg,
            1,
            1,
            n_reg,
            Frame { stack: s.push(Value::Scalar(Amount(0))).push(Value::Vector(xs)), regs },
            st,
            depth,
        ) == match aggregate_spec(Frame { stack: s.push(Value::Vector(xs)), regs }, Aggregate::Sum) {
            Ok(g) => Ok::<(Frame, StoreModel), ErrorCode>((g, st)),
            Err(e) => Err::<(Frame, StoreModel), ErrorCode>(e),
        },
{
    let f = Frame { stack: s.push(Value::Scalar(Amount(0))).push(Value::Vector(xs)), regs };
    let rest = f.stack.drop_last();
    assert(rest =~= s.push(Value::Scalar(Amount(0))));
    let items = xs.map_values(|x: Amount| Value::Scalar(x));
    assert(fold_items(f.stack.last()) == Some(items));
    let cregs = empty_regs(n_reg);
    let cf = Frame { stack: top_n(rest, 1), regs: cregs };
    assert(xs.take(0) =~= Seq::<Amount>::empty());
    assert(top_n(rest, 1) =~= seq![Value::Scalar(Amount(0))]);
    assert(cf == partial_sum_frame(xs, 0, cregs));
    lemma_accumulate_fold(lim, xs, 0, cregs, st, depth);
    let g = Frame { stack: s.push(Value::Vector(xs)), regs };
    assert(g.stack.last() == Value::Vector(xs));
    assert(xs.take(xs.len() as int) =~= xs);
    if total(xs) <= u128::MAX {
        let cf2 = partial_sum_frame(xs, xs.len(), cregs);
        let sum = Value::Scalar(Amount(total(xs) as u128));
        assert(top_n(cf2.stack, 1) =~= seq![sum]);
        assert(below_n(rest, 1) =~= s);
        assert(s + seq![sum] =~= g.stack.drop_last().push(sum));
    }
}

/// The outcome of a run is a function of the limits, the code, the frame,
/// what the store holds and the nesting allowed: runs against two stores
/// that hold the same give the same result and leave the same behind. (For a
/// reliable store, `Program::execute` reports exactly this outcome.)
pub proof fn law_determinism(
    lim: Limits,
    code: Seq<u128>,
    f: Frame,
    st1: StoreModel,
    st2: StoreModel,
    depth: nat,
)
    requires
        st1 == st2,
    ensures
        run(lim, code, 0, f, st1, depth) == run(lim, code, 0, f, st2, depth),
{
}

/// A load leaves the store as it was; a write changes the one entry it
/// names, in its own kind's namespace, to the operand it pops, and adds
/// exactly that one write to the store's record of writes.
pub proof fn law_store_step_economy(op: u128, a0: u128, f: Frame, st: StoreModel)
    requires
        is_store_op(op),
        store_step(op, a0, f, st) is Ok,
    ensures
        (op == OP_LDL || op == OP_LDV || op == OP_LDS) ==> store_step(op, a0, f, st)->Ok_0.1 == st,
        op == OP_STL ==> store_step(op, a0, f, st)->Ok_0.1 == (StoreModel {
            labels: st.labels.insert(a0, f.stack.last()->Labels_0),
            writes: st.writes.push(StoreWrite::Labels(a0, f.stack.last()->Labels_0)),
            ..st
        }),
        op == OP_STV ==> store_step(op, a0, f, st)->Ok_0.1 == (StoreModel {
            vectors: st.vectors.insert(a0, f.stack.last()->Vector_0),
            writes: st.writes.push(StoreWrite::Vector(a0, f.stack.last()->Vector_0)),
            ..st
        }),
        op == OP_STS ==> store_step(op, a0, f, st)->Ok_0.1 == (StoreModel {
            scalars: st.scalars.insert(a0, f.stack.last()->Scalar_0),
            writes: st.writes.push(StoreWrite::Scalar(a0, f.stack.last()->Scalar_0)),
            ..st
        }),
{
}

/// Code in which no word is a write or a call opcode.
pub open spec fn writes_nothing(code: Seq<u128>) -> bool {
    forall|i: int|
        0 <= i < code.len() ==> {
            let w = #[trigger] code[i];
            w != OP_STL && w != OP_STV && w != OP_STS && w != OP_B && w != OP_FOLD
        }
}

/// Code that holds no write or call opcode leaves the store untouched.
pub proof fn law_reads_leave_store(
    lim: Limits,
    code: Seq<u128>,
    pc: nat,
    f: Frame,
    st: StoreModel,
    depth: nat,
)
    requires
        writes_nothing(code),
    ensures
        run(lim, code, pc, f, st, depth) is Ok ==> run(lim, code, pc, f, st, depth)->Ok_0.1 == st,
    decreases code.len() - pc,
{
    if pc < code.len() {
        let op = code[pc as int];
        if let Some(n) = arity_spec(op) {
            if pc + 1 + n <= code.len() {
                let next = (pc + 1 + n) as nat;
                let a0 = if n >= 1 {
                    code[pc + 1int]
                } else {
                    0
                };
                let a1 = if n >= 2 {
                    code[pc + 2int]
                } else {
                    0
                };
                if is_store_op(op) {
                    if let Ok((f2, st2)) = store_step(op, a0, f, st) {
                        assert(st2 == st);
                        law_reads_leave_store(lim, code, next, f2, st2, depth);
                    }
                } else if let Ok(f2) = pure_step(op, a0, a1, f) {
                    law_reads_leave_store(lim, code, next, f2, st, depth);
                }
            }
        }
    }
}

/// No operand on the stack is an empty register slot.
pub open spec fn no_empty(s: Seq<Value>) -> bool {
    forall|i: int| 0 <= i < s.len() ==> !(#[trigger] s[i] is Empty)
}

/// An instruction that touches neither the store nor other programs never
/// puts an empty register slot on the stack.
pub proof fn law_stack_never_holds_empty(op: u128, a0: u128, a1: u128, f: Frame)
    requires
        no_empty(f.stack),
        pure_step(op, a0, a1, f) is Ok,
    ensures
        no_empty(pure_step(op, a0, a1, f)->Ok_0.stack),
{
    let g = pure_step(op, a0, a1, f)->Ok_0;
    assert forall|i: int| 0 <= i < g.stack.len() implies !(#[trigger] g.stack[i] is Empty) by {}
}

/// A load or a store never puts an empty register slot on the stack.
pub proof fn law_store_step_never_holds_empty(op: u128, a0: u128, f: Frame, st: StoreModel)
    requires
        no_empty(f.stack),
        is_store_op(op),
        store_step(op, a0, f, st) is Ok,
    ensures
        no_empty(store_step(op, a0, f, st)->Ok_0.0.stack),
{
    let g = store_step(op, a0, f, st)->Ok_0.0;
    assert forall|i: int| 0 <= i < g.stack.len() implies !(#[trigger] g.stack[i] is Empty) by {}
}

} // verus!
