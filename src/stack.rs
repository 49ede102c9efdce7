//! The operand stack and register file of one frame.

use vstd::prelude::*;

use crate::amount::Amount;
use crate::arith::{aggregate_exec, apply, broadcast_exec, elementwise_exec, error_of, sqrt_all};
use crate::error::ErrorCode;
use crate::join::{join_values, label_union};
use crate::operand::{values_of, Operand, Value};
use crate::semantics::{
    aggregate_spec, arith_spec, below_n, join_spec, lunion_spec, JoinOp, fill_spec, pkl_spec, pkv_spec, top_n, transpose_spec,
    transpose_values, unpk_spec, ldd_spec, ldr_spec, lpop_spec, lpush_spec, popn_spec,
    push_spec, set_top, slot, sqrt_frame_spec, str_spec, swap_spec, vpop_spec, vpush_spec,
    with_stack, Aggregate, ArithOp, Frame,
};
use crate::vector::Vector;
use crate::labels::Labels;

verus! {

/// Whether `r` reports `expected`: on success the frame became `after`; on
/// failure the error is the expected one and the frame is unchanged.
pub open spec fn follows(
    r: Result<(), ErrorCode>,
    before: Frame,
    after: Frame,
    expected: Result<Frame, ErrorCode>,
) -> bool {
    match r {
        Ok(_) => expected == Ok::<Frame, ErrorCode>(after),
        Err(e) => expected == Err::<Frame, ErrorCode>(e) && after == before,
    }
}

/// The operand stack (bottom first) and the registers of a frame.
pub struct Stack {
    pub stack: Vec<Operand>,
    pub registry: Vec<Operand>,
}

pub proof fn lemma_values_push(s: Seq<Operand>, o: Operand)
    ensures
        values_of(s.push(o)) == values_of(s).push(o@),
{
    assert(values_of(s.push(o)) =~= values_of(s).push(o@));
}

pub proof fn lemma_values_update(s: Seq<Operand>, i: int, o: Operand)
    requires
        0 <= i < s.len(),
    ensures
        values_of(s.update(i, o)) == values_of(s).update(i, o@),
{
    assert(values_of(s.update(i, o)) =~= values_of(s).update(i, o@));
}

pub proof fn lemma_values_subrange(s: Seq<Operand>, i: int, j: int)
    requires
        0 <= i <= j <= s.len(),
    ensures
        values_of(s.subrange(i, j)) == values_of(s).subrange(i, j),
{
    assert(values_of(s.subrange(i, j)) =~= values_of(s).subrange(i, j));
}

pub proof fn lemma_values_concat(s: Seq<Operand>, t: Seq<Operand>)
    ensures
        values_of(s + t) == values_of(s) + values_of(t),
{
    assert(values_of(s + t) =~= values_of(s) + values_of(t));
}

impl View for Stack {
    type V = Frame;

    open spec fn view(&self) -> Frame {
        Frame { stack: values_of(self.stack@), regs: values_of(self.registry@) }
    }
}

impl Stack {
    /// An empty stack with `num_registers` empty registers.
    pub fn new(num_registers: usize) -> (r: Self)
        ensures
            r@.stack == Seq::<Value>::empty(),
            r@.regs == Seq::new(num_registers as nat, |i: int| Value::Empty),
    {
        let mut registry: Vec<Operand> = Vec::new();
        let mut i: usize = 0;
        while i < num_registers
            invariant
                i <= num_registers,
                values_of(registry@) =~= Seq::new(i as nat, |k: int| Value::Empty),
            decreases num_registers - i,
        {
            proof {
                lemma_values_push(registry@, Operand::Empty);
            }
            registry.push(Operand::Empty);
            i = i + 1;
        }
        let r = Stack { stack: Vec::new(), registry };
        assert(r@.stack =~= Seq::<Value>::empty());
        r
    }

    /// The number of operands on the stack.
    pub fn depth(&self) -> (r: usize)
        ensures
            r == self@.stack.len(),
    {
        self.stack.len()
    }

    pub fn push(&mut self, operand: Operand)
        ensures
            final(self)@ == push_spec(old(self)@, operand@),
            final(self).stack@ == old(self).stack@.push(operand),
    {
        self.stack.push(operand);
        proof {
            lemma_values_push(old(self).stack@, operand);
        }
    }

    pub fn pop(&mut self) -> (r: Result<Operand, ErrorCode>)
        ensures
            old(self).stack@.len() == 0 ==> r == Err::<Operand, ErrorCode>(ErrorCode::StackUnderflow)
                && final(self)@ == old(self)@ && final(self).stack@ == old(self).stack@,
            old(self).stack@.len() > 0 ==> r == Ok::<Operand, ErrorCode>(old(self).stack@.last())
                && final(self)@ == with_stack(old(self)@, old(self)@.stack.drop_last())
                && final(self).stack@ == old(self).stack@.drop_last() && final(self).registry
                == old(self).registry,
    {
        match self.stack.pop() {
            Some(o) => {
                proof {
                    lemma_values_subrange(old(self).stack@, 0, old(self).stack@.len() - 1);
                    assert(old(self)@.stack.drop_last() =~= values_of(old(self).stack@).subrange(
                        0,
                        old(self).stack@.len() - 1,
                    ));
                    assert(old(self).stack@.drop_last() =~= old(self).stack@.subrange(
                        0,
                        old(self).stack@.len() - 1,
                    ));
                }
                Ok(o)
            },
            None => Err(ErrorCode::StackUnderflow),
        }
    }

    /// The index of the operand at depth `pos`.
    pub fn slot_index(&self, pos: usize) -> (r: Result<usize, ErrorCode>)
        ensures
            match r {
                Ok(i) => i == self@.stack.len() - 1 - pos && slot(self@.stack, pos as nat) == Ok::<
                    Value,
                    ErrorCode,
                >(self.stack@[i as int]@),
                Err(e) => slot(self@.stack, pos as nat) == Err::<Value, ErrorCode>(e),
            },
    {
        let depth = self.stack.len();
        if depth == 0 {
            return Err(ErrorCode::StackUnderflow);
        }
        if pos >= depth {
            return Err(ErrorCode::OutOfRange);
        }
        Ok(depth - 1 - pos)
    }

    /// Pushes a copy of the operand at depth `pos`.
    pub fn ldd(&mut self, pos: usize) -> (r: Result<(), ErrorCode>)
        ensures
            follows(r, old(self)@, final(self)@, ldd_spec(old(self)@, pos as nat)),
    {
        let i = match self.slot_index(pos) {
            Ok(i) => i,
            Err(e) => return Err(e),
        };
        let v = self.stack[i].duplicate();
        self.push(v);
        Ok(())
    }

    /// Pushes a copy of register `reg`.
    pub fn ldr(&mut self, reg: usize) -> (r: Result<(), ErrorCode>)
        ensures
            follows(r, old(self)@, final(self)@, ldr_spec(old(self)@, reg as nat)),
    {
        if reg >= self.registry.len() {
            return Err(ErrorCode::OutOfRange);
        }
        if let Operand::Empty = self.registry[reg] {
            return Err(ErrorCode::InvalidOperand);
        }
        let v = self.registry[reg].duplicate();
        self.push(v);
        Ok(())
    }

    /// Pops the top operand into register `reg`.
    pub fn op_str(&mut self, reg: usize) -> (r: Result<(), ErrorCode>)
        ensures
            follows(r, old(self)@, final(self)@, str_spec(old(self)@, reg as nat)),
    {
        if reg >= self.registry.len() {
            return Err(ErrorCode::OutOfRange);
        }
        let v = match self.pop() {
            Ok(v) => v,
            Err(e) => return Err(e),
        };
        let ghost popped = self.registry@;
        self.registry[reg] = v;
        proof {
            lemma_values_update(popped, reg as int, v);
        }
        Ok(())
    }

    /// Drops the top `count` operands.
    pub fn op_popn(&mut self, count: usize) -> (r: Result<(), ErrorCode>)
        ensures
            follows(r, old(self)@, final(self)@, popn_spec(old(self)@, count as nat)),
    {
        let depth = self.stack.len();
        if count > depth {
            return Err(ErrorCode::StackUnderflow);
        }
        self.stack.truncate(depth - count);
        proof {
            lemma_values_subrange(old(self).stack@, 0, depth - count);
        }
        Ok(())
    }

    /// Swaps the top operand with the one at depth `pos`.
    pub fn swap(&mut self, pos: usize) -> (r: Result<(), ErrorCode>)
        ensures
            follows(r, old(self)@, final(self)@, swap_spec(old(self)@, pos as nat)),
    {
        let i = match self.slot_index(pos) {
            Ok(i) => i,
            Err(e) => return Err(e),
        };
        let last = self.stack.len() - 1;
        if i == last {
            proof {
                let f = old(self)@.stack;
                assert(f.update(last as int, f.last()).update(last as int, f[last as int]) =~= f);
            }
            return Ok(());
        }
        let top = match self.pop() {
            Ok(v) => v,
            Err(e) => return Err(e),
        };
        let other = replace_at(&mut self.stack, i, top);
        self.stack.push(other);
        proof {
            let s0 = old(self).stack@;
            assert(self.stack@ =~= s0.update(i as int, s0.last()).update(last as int, s0[i as int]));
            lemma_values_update(s0, i as int, s0.last());
            lemma_values_update(s0.update(i as int, s0.last()), last as int, s0[i as int]);
        }
        Ok(())
    }

    /// Pushes the scalar whose raw value is `value`.
    pub fn imms(&mut self, value: u128) -> (r: Result<(), ErrorCode>)
        ensures
            r is Ok,
            final(self)@ == push_spec(old(self)@, Value::Scalar(Amount(value))),
    {
        self.push(Operand::Scalar(Amount::from_u128_raw(value)));
        Ok(())
    }

    /// Pushes the label `value`.
    pub fn imml(&mut self, value: u128) -> (r: Result<(), ErrorCode>)
        ensures
            r is Ok,
            final(self)@ == push_spec(old(self)@, Value::Label(value)),
    {
        self.push(Operand::Label(value));
        Ok(())
    }

    /// Replaces the top operand by `o`.
    fn set_top(&mut self, o: Operand)
        requires
            old(self).stack@.len() > 0,
        ensures
            final(self)@ == set_top(old(self)@, o@),
            final(self).stack@.len() == old(self).stack@.len(),
    {
        let last = self.stack.len() - 1;
        self.stack[last] = o;
        proof {
            lemma_values_update(old(self).stack@, last as int, o);
        }
    }

    /// Combines the top operand in place with the one at depth `pos`.
    pub fn arith(&mut self, op: ArithOp, pos: usize) -> (r: Result<(), ErrorCode>)
        ensures
            follows(r, old(self)@, final(self)@, arith_spec(old(self)@, op, pos as nat)),
    {
        let i = match self.slot_index(pos) {
            Ok(i) => i,
            Err(e) => return Err(e),
        };
        let last = self.stack.len() - 1;
        let res: Result<Operand, ErrorCode> = match (&self.stack[last], &self.stack[i]) {
            (Operand::Vector(xs), Operand::Vector(ys)) => {
                if xs.data.len() != ys.data.len() {
                    Err(ErrorCode::NotAligned)
                } else {
                    match elementwise_exec(op, &xs.data, &ys.data) {
                        Ok(v) => Ok(Operand::Vector(Vector { data: v })),
                        Err(e) => Err(e),
                    }
                }
            },
            (Operand::Vector(xs), Operand::Scalar(y)) => match broadcast_exec(op, &xs.data, *y) {
                Ok(v) => Ok(Operand::Vector(Vector { data: v })),
                Err(e) => Err(e),
            },
            (Operand::Scalar(x), Operand::Scalar(y)) => match apply(op, *x, *y) {
                Some(v) => Ok(Operand::Scalar(v)),
                None => Err(error_of(op)),
            },
            _ => Err(ErrorCode::InvalidOperand),
        };
        match res {
            Ok(o) => {
                self.set_top(o);
                Ok(())
            },
            Err(e) => Err(e),
        }
    }

    pub fn add(&mut self, pos: usize) -> (r: Result<(), ErrorCode>)
        ensures
            follows(r, old(self)@, final(self)@, arith_spec(old(self)@, ArithOp::Add, pos as nat)),
    {
        self.arith(ArithOp::Add, pos)
    }

    pub fn sub(&mut self, pos: usize) -> (r: Result<(), ErrorCode>)
        ensures
            follows(r, old(self)@, final(self)@, arith_spec(old(self)@, ArithOp::Sub, pos as nat)),
    {
        self.arith(ArithOp::Sub, pos)
    }

    pub fn ssb(&mut self, pos: usize) -> (r: Result<(), ErrorCode>)
        ensures
            follows(r, old(self)@, final(self)@, arith_spec(old(self)@, ArithOp::Ssb, pos as nat)),
    {
        self.arith(ArithOp::Ssb, pos)
    }

    pub fn mul(&mut self, pos: usize) -> (r: Result<(), ErrorCode>)
        ensures
            follows(r, old(self)@, final(self)@, arith_spec(old(self)@, ArithOp::Mul, pos as nat)),
    {
        self.arith(ArithOp::Mul, pos)
    }

    pub fn div(&mut self, pos: usize) -> (r: Result<(), ErrorCode>)
        ensures
            follows(r, old(self)@, final(self)@, arith_spec(old(self)@, ArithOp::Div, pos as nat)),
    {
        self.arith(ArithOp::Div, pos)
    }

    pub fn min(&mut self, pos: usize) -> (r: Result<(), ErrorCode>)
        ensures
            follows(r, old(self)@, final(self)@, arith_spec(old(self)@, ArithOp::Min, pos as nat)),
    {
        self.arith(ArithOp::Min, pos)
    }

    pub fn max(&mut self, pos: usize) -> (r: Result<(), ErrorCode>)
        ensures
            follows(r, old(self)@, final(self)@, arith_spec(old(self)@, ArithOp::Max, pos as nat)),
    {
        self.arith(ArithOp::Max, pos)
    }

    /// The square root of the top operand, componentwise on a vector.
    pub fn sqrt(&mut self) -> (r: Result<(), ErrorCode>)
        ensures
            follows(r, old(self)@, final(self)@, sqrt_frame_spec(old(self)@)),
    {
        let depth = self.stack.len();
        if depth == 0 {
            return Err(ErrorCode::StackUnderflow);
        }
        let res: Result<Operand, ErrorCode> = match &self.stack[depth - 1] {
            Operand::Vector(xs) => Ok(Operand::Vector(Vector { data: sqrt_all(&xs.data) })),
            Operand::Scalar(x) => match x.checked_sqrt() {
                Some(v) => Ok(Operand::Scalar(v)),
                None => Err(ErrorCode::MathOverflow),
            },
            _ => Err(ErrorCode::InvalidOperand),
        };
        match res {
            Ok(o) => {
                self.set_top(o);
                Ok(())
            },
            Err(e) => Err(e),
        }
    }

    /// Pops a vector and pushes its sum, least or greatest value.
    pub fn aggregate(&mut self, agg: Aggregate) -> (r: Result<(), ErrorCode>)
        ensures
            follows(r, old(self)@, final(self)@, aggregate_spec(old(self)@, agg)),
    {
        let depth = self.stack.len();
        if depth == 0 {
            return Err(ErrorCode::StackUnderflow);
        }
        let res: Result<Amount, ErrorCode> = match &self.stack[depth - 1] {
            Operand::Vector(xs) => match aggregate_exec(agg, &xs.data) {
                Some(v) => Ok(v),
                None => Err(ErrorCode::MathOverflow),
            },
            _ => Err(ErrorCode::InvalidOperand),
        };
        match res {
            Ok(v) => {
                self.set_top(Operand::Scalar(v));
                proof {
                    let f = old(self)@.stack;
                    assert(f.update(f.len() - 1, Value::Scalar(v)) =~= f.drop_last().push(Value::Scalar(v)));
                }
                Ok(())
            },
            Err(e) => Err(e),
        }
    }

    pub fn vsum(&mut self) -> (r: Result<(), ErrorCode>)
        ensures
            follows(r, old(self)@, final(self)@, aggregate_spec(old(self)@, Aggregate::Sum)),
    {
        self.aggregate(Aggregate::Sum)
    }

    pub fn vmin(&mut self) -> (r: Result<(), ErrorCode>)
        ensures
            follows(r, old(self)@, final(self)@, aggregate_spec(old(self)@, Aggregate::Least)),
    {
        self.aggregate(Aggregate::Least)
    }

    pub fn vmax(&mut self) -> (r: Result<(), ErrorCode>)
        ensures
            follows(r, old(self)@, final(self)@, aggregate_spec(old(self)@, Aggregate::Greatest)),
    {
        self.aggregate(Aggregate::Greatest)
    }

    /// Pushes a vector as long as the container at depth `pos`, every entry `fill`.
    pub fn fill(&mut self, pos: usize, fill: Amount) -> (r: Result<(), ErrorCode>)
        ensures
            follows(r, old(self)@, final(self)@, fill_spec(old(self)@, pos as nat, fill)),
    {
        let i = match self.slot_index(pos) {
            Ok(i) => i,
            Err(e) => return Err(e),
        };
        let n = match &self.stack[i] {
            Operand::Vector(v) => v.data.len(),
            Operand::Labels(l) => l.data.len(),
            _ => return Err(ErrorCode::InvalidOperand),
        };
        let mut data: Vec<Amount> = Vec::new();
        let mut k: usize = 0;
        while k < n
            invariant
                k <= n,
                data@ =~= Seq::new(k as nat, |j: int| fill),
            decreases n - k,
        {
            data.push(fill);
            k = k + 1;
        }
        self.push(Operand::Vector(Vector { data }));
        Ok(())
    }

    pub fn zeros(&mut self, pos: usize) -> (r: Result<(), ErrorCode>)
        ensures
            follows(r, old(self)@, final(self)@, fill_spec(old(self)@, pos as nat, Amount(0))),
    {
        self.fill(pos, Amount::zero())
    }

    pub fn ones(&mut self, pos: usize) -> (r: Result<(), ErrorCode>)
        ensures
            follows(r, old(self)@, final(self)@, fill_spec(old(self)@, pos as nat, Amount(crate::amount::SCALE))),
    {
        self.fill(pos, Amount::one())
    }

    /// Appends the raw amount `value` to the vector on top.
    pub fn vpush(&mut self, value: u128) -> (r: Result<(), ErrorCode>)
        ensures
            follows(r, old(self)@, final(self)@, vpush_spec(old(self)@, value)),
    {
        let depth = self.stack.len();
        if depth == 0 {
            return Err(ErrorCode::StackUnderflow);
        }
        let res: Result<Operand, ErrorCode> = match &self.stack[depth - 1] {
            Operand::Vector(v) => {
                let mut data = crate::operand::copy_amounts(&v.data);
                data.push(Amount(value));
                Ok(Operand::Vector(Vector { data }))
            },
            _ => Err(ErrorCode::InvalidOperand),
        };
        match res {
            Ok(o) => {
                self.set_top(o);
                Ok(())
            },
            Err(e) => Err(e),
        }
    }

    /// Appends the label `value` to the label sequence on top.
    pub fn lpush(&mut self, value: u128) -> (r: Result<(), ErrorCode>)
        ensures
            follows(r, old(self)@, final(self)@, lpush_spec(old(self)@, value)),
    {
        let depth = self.stack.len();
        if depth == 0 {
            return Err(ErrorCode::StackUnderflow);
        }
        let res: Result<Operand, ErrorCode> = match &self.stack[depth - 1] {
            Operand::Labels(l) => {
                let mut data = crate::operand::copy_words(&l.data);
                data.push(value);
                Ok(Operand::Labels(Labels { data }))
            },
            _ => Err(ErrorCode::InvalidOperand),
        };
        match res {
            Ok(o) => {
                self.set_top(o);
                Ok(())
            },
            Err(e) => Err(e),
        }
    }

    /// Removes the last amount of the vector on top and pushes it above.
    pub fn vpop(&mut self) -> (r: Result<(), ErrorCode>)
        ensures
            follows(r, old(self)@, final(self)@, vpop_spec(old(self)@)),
    {
        let depth = self.stack.len();
        if depth == 0 {
            return Err(ErrorCode::StackUnderflow);
        }
        let res: Result<(Operand, Amount), ErrorCode> = match &self.stack[depth - 1] {
            Operand::Vector(v) => {
                let n = v.data.len();
                if n == 0 {
                    Err(ErrorCode::OutOfRange)
                } else {
                    let mut data = crate::operand::copy_amounts(&v.data);
                    let x = data.pop().unwrap();
                    proof {
                        assert(data@ =~= v.data@.drop_last());
                    }
                    Ok((Operand::Vector(Vector { data }), x))
                }
            },
            _ => Err(ErrorCode::InvalidOperand),
        };
        match res {
            Ok((o, x)) => {
                self.set_top(o);
                self.push(Operand::Scalar(x));
                Ok(())
            },
            Err(e) => Err(e),
        }
    }

    /// Removes the last label of the label sequence on top and pushes it above.
    pub fn lpop(&mut self) -> (r: Result<(), ErrorCode>)
        ensures
            follows(r, old(self)@, final(self)@, lpop_spec(old(self)@)),
    {
        let depth = self.stack.len();
        if depth == 0 {
            return Err(ErrorCode::StackUnderflow);
        }
        let res: Result<(Operand, u128), ErrorCode> = match &self.stack[depth - 1] {
            Operand::Labels(l) => {
                let n = l.data.len();
                if n == 0 {
                    Err(ErrorCode::OutOfRange)
                } else {
                    let mut data = crate::operand::copy_words(&l.data);
                    let x = data.pop().unwrap();
                    proof {
                        assert(data@ =~= l.data@.drop_last());
                    }
                    Ok((Operand::Labels(Labels { data }), x))
                }
            },
            _ => Err(ErrorCode::InvalidOperand),
        };
        match res {
            Ok((o, x)) => {
                self.set_top(o);
                self.push(Operand::Label(x));
                Ok(())
            },
            Err(e) => Err(e),
        }
    }

    /// Drops every operand from index `start` up.
    fn cut(&mut self, start: usize)
        requires
            start <= old(self).stack@.len(),
        ensures
            final(self)@ == with_stack(old(self)@, below_n(old(self)@.stack, (old(self)@.stack.len() - start) as nat)),
            final(self).stack@ == old(self).stack@.subrange(0, start as int),
    {
        self.stack.truncate(start);
        proof {
            lemma_values_subrange(old(self).stack@, 0, start as int);
        }
    }

    /// Replaces the top `count` scalars by one vector of them, deepest first.
    pub fn pkv(&mut self, count: usize) -> (r: Result<(), ErrorCode>)
        ensures
            follows(r, old(self)@, final(self)@, pkv_spec(old(self)@, count as nat)),
    {
        let depth = self.stack.len();
        if count > depth {
            return Err(ErrorCode::StackUnderflow);
        }
        let start = depth - count;
        let ghost top = top_n(self@.stack, count as nat);
        let mut data: Vec<Amount> = Vec::new();
        let mut k: usize = start;
        while k < depth
            invariant
                start <= k <= depth,
                depth == self.stack@.len(),
                start == depth - count,
                self == old(self),
                top == top_n(self@.stack, count as nat),
                data@.len() == k - start,
                forall|j: int| 0 <= j < k - start ==> (#[trigger] top[j]) is Scalar && data@[j] == top[j]->Scalar_0,
            decreases depth - k,
        {
            assert(top[k - start] == self.stack@[k as int]@);
            match &self.stack[k] {
                Operand::Scalar(x) => data.push(*x),
                _ => {
                    assert(!(top[k - start] is Scalar));
                    return Err(ErrorCode::InvalidOperand);
                },
            }
            k = k + 1;
        }
        assert(data@ =~= top.map_values(|v: Value| v->Scalar_0));
        self.cut(start);
        self.push(Operand::Vector(Vector { data }));
        Ok(())
    }

    /// Replaces the top `count` labels by one label sequence of them, deepest first.
    pub fn pkl(&mut self, count: usize) -> (r: Result<(), ErrorCode>)
        ensures
            follows(r, old(self)@, final(self)@, pkl_spec(old(self)@, count as nat)),
    {
        let depth = self.stack.len();
        if count > depth {
            return Err(ErrorCode::StackUnderflow);
        }
        let start = depth - count;
        let ghost top = top_n(self@.stack, count as nat);
        let mut data: Vec<u128> = Vec::new();
        let mut k: usize = start;
        while k < depth
            invariant
                start <= k <= depth,
                depth == self.stack@.len(),
                start == depth - count,
                self == old(self),
                top == top_n(self@.stack, count as nat),
                data@.len() == k - start,
                forall|j: int| 0 <= j < k - start ==> (#[trigger] top[j]) is Label && data@[j] == top[j]->Label_0,
            decreases depth - k,
        {
            assert(top[k - start] == self.stack@[k as int]@);
            match &self.stack[k] {
                Operand::Label(x) => data.push(*x),
                _ => {
                    assert(!(top[k - start] is Label));
                    return Err(ErrorCode::InvalidOperand);
                },
            }
            k = k + 1;
        }
        assert(data@ =~= top.map_values(|v: Value| v->Label_0));
        self.cut(start);
        self.push(Operand::Labels(Labels { data }));
        Ok(())
    }

    /// Replaces the container on top by its elements, the first deepest.
    pub fn unpk(&mut self) -> (r: Result<(), ErrorCode>)
        ensures
            follows(r, old(self)@, final(self)@, unpk_spec(old(self)@)),
    {
        let depth = self.stack.len();
        if depth == 0 {
            return Err(ErrorCode::StackUnderflow);
        }
        match &self.stack[depth - 1] {
            Operand::Vector(_) => {},
            Operand::Labels(_) => {},
            _ => return Err(ErrorCode::InvalidOperand),
        }
        let top = match self.pop() {
            Ok(o) => o,
            Err(e) => return Err(e),
        };
        let ghost base = self@.stack;
        match top {
            Operand::Vector(v) => {
                let ghost items = v.data@.map_values(|x: Amount| Value::Scalar(x));
                let mut i: usize = 0;
                while i < v.data.len()
                    invariant
                        i <= v.data@.len(),
                        items == v.data@.map_values(|x: Amount| Value::Scalar(x)),
                        self@.regs == old(self)@.regs,
                        self@.stack =~= base + items.take(i as int),
                    decreases v.data@.len() - i,
                {
                    self.push(Operand::Scalar(v.data[i]));
                    i = i + 1;
                }
                assert(items.take(v.data@.len() as int) =~= items);
            },
            Operand::Labels(l) => {
                let ghost items = l.data@.map_values(|x: u128| Value::Label(x));
                let mut i: usize = 0;
                while i < l.data.len()
                    invariant
                        i <= l.data@.len(),
                        items == l.data@.map_values(|x: u128| Value::Label(x)),
                        self@.regs == old(self)@.regs,
                        self@.stack =~= base + items.take(i as int),
                    decreases l.data@.len() - i,
                {
                    self.push(Operand::Label(l.data[i]));
                    i = i + 1;
                }
                assert(items.take(l.data@.len() as int) =~= items);
            },
            _ => {},
        }
        Ok(())
    }

    /// Replaces the top `count` vectors, read as the columns of a matrix, by
    /// its rows, pushed in row order.
    pub fn transpose(&mut self, count: usize) -> (r: Result<(), ErrorCode>)
        ensures
            follows(r, old(self)@, final(self)@, transpose_spec(old(self)@, count as nat)),
    {
        if count == 0 {
            return Err(ErrorCode::InvalidOperand);
        }
        if count == 1 {
            return self.unpk();
        }
        let depth = self.stack.len();
        if count > depth {
            return Err(ErrorCode::StackUnderflow);
        }
        let start = depth - count;
        let ghost top = top_n(self@.stack, count as nat);
        let mut k: usize = start;
        while k < depth
            invariant
                start <= k <= depth,
                depth == self.stack@.len(),
                start == depth - count,
                count >= 2,
                self == old(self),
                top == top_n(self@.stack, count as nat),
                forall|j: int| 0 <= j < k - start ==> (#[trigger] top[j]) is Vector,
            decreases depth - k,
        {
            assert(top[k - start] == self.stack@[k as int]@);
            match &self.stack[k] {
                Operand::Vector(_) => {},
                _ => {
                    assert(!(top_n(old(self)@.stack, count as nat)[k - start] is Vector));
                    return Err(ErrorCode::InvalidOperand);
                },
            }
            k = k + 1;
        }
        let ghost cols = top.map_values(|v: Value| v->Vector_0);
        let rows = match &self.stack[start] {
            Operand::Vector(v) => v.data.len(),
            _ => 0,
        };
        assert(top[0] == self.stack@[start as int]@);
        assert(rows == cols[0].len());
        let mut k: usize = start;
        while k < depth
            invariant
                start <= k <= depth,
                depth == self.stack@.len(),
                start == depth - count,
                self == old(self),
                top == top_n(self@.stack, count as nat),
                cols == top.map_values(|v: Value| v->Vector_0),
                count >= 2,
                forall|j: int| 0 <= j < count ==> (#[trigger] top[j]) is Vector,
                rows == cols[0].len(),
                forall|j: int| 0 <= j < k - start ==> (#[trigger] cols[j]).len() == rows,
            decreases depth - k,
        {
            assert(top[k - start] == self.stack@[k as int]@);
            let n = match &self.stack[k] {
                Operand::Vector(v) => v.data.len(),
                _ => 0,
            };
            if n != rows {
                assert(cols[k - start].len() != cols[0].len());
                return Err(ErrorCode::InvalidOperand);
            }
            k = k + 1;
        }
        let ghost mat = transpose_values(cols, rows as nat);
        assert(count >= 2);
        let mut out: Vec<Operand> = Vec::new();
        let mut r: usize = 0;
        while r < rows
            invariant
                r <= rows,
                depth == self.stack@.len(),
                start == depth - count,
                self == old(self),
                top == top_n(self@.stack, count as nat),
                cols == top.map_values(|v: Value| v->Vector_0),
                forall|j: int| 0 <= j < count ==> (#[trigger] top[j]) is Vector,
                forall|j: int| 0 <= j < count ==> (#[trigger] cols[j]).len() == rows,
                mat == transpose_values(cols, rows as nat),
                values_of(out@) =~= mat.take(r as int).map_values(|x: Seq<Amount>| Value::Vector(x)),
            decreases rows - r,
        {
            let mut row: Vec<Amount> = Vec::new();
            let mut c: usize = 0;
            while c < count
                invariant
                    c <= count,
                    r < rows,
                    depth == self.stack@.len(),
                    start == depth - count,
                    self == old(self),
                    top == top_n(self@.stack, count as nat),
                    cols == top.map_values(|v: Value| v->Vector_0),
                    forall|j: int| 0 <= j < count ==> (#[trigger] top[j]) is Vector,
                    forall|j: int| 0 <= j < count ==> (#[trigger] cols[j]).len() == rows,
                    row@ =~= Seq::new(c as nat, |j: int| cols[j][r as int]),
                decreases count - c,
            {
                assert(top[c as int] == self.stack@[start + c]@);
                assert(cols[c as int] == top[c as int]->Vector_0);
                assert(cols[c as int].len() == rows);
                let x = match &self.stack[start + c] {
                    Operand::Vector(v) => v.data[r],
                    _ => Amount(0),
                };
                row.push(x);
                c = c + 1;
            }
            proof {
                lemma_values_push(out@, Operand::Vector(Vector { data: row }));
                assert(mat[r as int] =~= row@);
                assert(mat.take(r + 1) =~= mat.take(r as int).push(mat[r as int]));
            }
            out.push(Operand::Vector(Vector { data: row }));
            r = r + 1;
        }
        assert(mat.take(rows as int) =~= mat);
        self.cut(start);
        let ghost base = self.stack@;
        let ghost pushed = out@;
        self.stack.append(&mut out);
        proof {
            lemma_values_concat(base, pushed);
        }
        Ok(())
    }

    /// Replaces the label sequence on top by its sorted union with the one at depth `pos`.
    pub fn lunion(&mut self, pos: usize) -> (r: Result<(), ErrorCode>)
        ensures
            follows(r, old(self)@, final(self)@, lunion_spec(old(self)@, pos as nat)),
    {
        let i = match self.slot_index(pos) {
            Ok(i) => i,
            Err(e) => return Err(e),
        };
        let last = self.stack.len() - 1;
        let res: Result<Operand, ErrorCode> = match (&self.stack[last], &self.stack[i]) {
            (Operand::Labels(a), Operand::Labels(b)) => Ok(
                Operand::Labels(Labels { data: label_union(a.data.as_slice(), b.data.as_slice()) }),
            ),
            _ => Err(ErrorCode::InvalidOperand),
        };
        match res {
            Ok(o) => {
                self.set_top(o);
                Ok(())
            },
            Err(e) => Err(e),
        }
    }

    /// Componentwise `carrier - addend`, saturating, for vectors on the same labels.
    fn ssb_aligned(&mut self) -> (r: Result<(), ErrorCode>)
        ensures
            follows(r, old(self)@, final(self)@, join_spec(old(self)@, JoinOp::Ssb, 2, 2)),
    {
        let i = match self.slot_index(1) {
            Ok(i) => i,
            Err(e) => return Err(e),
        };
        let last = self.stack.len() - 1;
        let res: Result<Operand, ErrorCode> = match (&self.stack[last], &self.stack[i]) {
            (Operand::Vector(addend), Operand::Vector(carrier)) => {
                if addend.data.len() != carrier.data.len() {
                    Err(ErrorCode::NotAligned)
                } else {
                    let n = carrier.data.len();
                    let ghost expect = Seq::new(
                        carrier.data@.len(),
                        |k: int| crate::amount::ssb_spec(carrier.data@[k], addend.data@[k]),
                    );
                    let mut out: Vec<Amount> = Vec::new();
                    let mut k: usize = 0;
                    while k < n
                        invariant
                            n == carrier.data@.len(),
                            n == addend.data@.len(),
                            k <= n,
                            expect == Seq::new(
                                carrier.data@.len(),
                                |k: int| crate::amount::ssb_spec(carrier.data@[k], addend.data@[k]),
                            ),
                            out@ =~= expect.take(k as int),
                        decreases n - k,
                    {
                        out.push(carrier.data[k].saturating_sub(addend.data[k]));
                        k = k + 1;
                    }
                    assert(expect.take(n as int) =~= expect);
                    Ok(Operand::Vector(Vector { data: out }))
                }
            },
            _ => Err(ErrorCode::InvalidOperand),
        };
        match res {
            Ok(o) => {
                self.set_top(o);
                Ok(())
            },
            Err(e) => Err(e),
        }
    }

    /// A join on the label sequences at depths `pos_a` and `pos_b`.
    pub fn join(&mut self, op: JoinOp, pos_a: usize, pos_b: usize) -> (r: Result<(), ErrorCode>)
        ensures
            follows(r, old(self)@, final(self)@, join_spec(old(self)@, op, pos_a as nat, pos_b as nat)),
    {
        if pos_a == pos_b {
            return match op {
                JoinOp::Add => self.arith(ArithOp::Add, 1),
                JoinOp::Ssb => self.ssb_aligned(),
                _ => Ok(()),
            };
        }
        if pos_a < 2 || pos_b < 2 {
            return Err(ErrorCode::InvalidOperand);
        }
        let two = match op {
            JoinOp::Add => true,
            JoinOp::Ssb => true,
            _ => false,
        };
        let iu = if two {
            match self.slot_index(1) {
                Ok(i) => i,
                Err(e) => return Err(e),
            }
        } else {
            0
        };
        let ia = match self.slot_index(pos_a) {
            Ok(i) => i,
            Err(e) => return Err(e),
        };
        let ib = match self.slot_index(pos_b) {
            Ok(i) => i,
            Err(e) => return Err(e),
        };
        let last = self.stack.len() - 1;
        let empty: Vec<Amount> = Vec::new();
        let res: Result<Vec<Amount>, ErrorCode> = match (&self.stack[last], &self.stack[ia], &self.stack[ib]) {
            (Operand::Vector(top), Operand::Labels(la), Operand::Labels(lb)) => {
                if two {
                    match &self.stack[iu] {
                        Operand::Vector(under) => join_values(op, &top.data, &under.data, &la.data, &lb.data),
                        _ => Err(ErrorCode::InvalidOperand),
                    }
                } else {
                    join_values(op, &top.data, &empty, &la.data, &lb.data)
                }
            },
            _ => Err(ErrorCode::InvalidOperand),
        };
        match res {
            Ok(v) => {
                self.set_top(Operand::Vector(Vector { data: v }));
                Ok(())
            },
            Err(e) => Err(e),
        }
    }

    pub fn jadd(&mut self, pos_a: usize, pos_b: usize) -> (r: Result<(), ErrorCode>)
        ensures
            follows(r, old(self)@, final(self)@, join_spec(old(self)@, JoinOp::Add, pos_a as nat, pos_b as nat)),
    {
        self.join(JoinOp::Add, pos_a, pos_b)
    }

    pub fn jssb(&mut self, pos_a: usize, pos_b: usize) -> (r: Result<(), ErrorCode>)
        ensures
            follows(r, old(self)@, final(self)@, join_spec(old(self)@, JoinOp::Ssb, pos_a as nat, pos_b as nat)),
    {
        self.join(JoinOp::Ssb, pos_a, pos_b)
    }

    pub fn jxpnd(&mut self, pos_a: usize, pos_b: usize) -> (r: Result<(), ErrorCode>)
        ensures
            follows(r, old(self)@, final(self)@, join_spec(old(self)@, JoinOp::Expand, pos_a as nat, pos_b as nat)),
    {
        self.join(JoinOp::Expand, pos_a, pos_b)
    }

    pub fn jfltr(&mut self, pos_a: usize, pos_b: usize) -> (r: Result<(), ErrorCode>)
        ensures
            follows(r, old(self)@, final(self)@, join_spec(old(self)@, JoinOp::Filter, pos_a as nat, pos_b as nat)),
    {
        self.join(JoinOp::Filter, pos_a, pos_b)
    }
}

/// Puts `o` at index `i` of `v` and hands back what stood there.
pub fn replace_at(v: &mut Vec<Operand>, i: usize, o: Operand) -> (r: Operand)
    requires
        i < old(v)@.len(),
    ensures
        r == old(v)@[i as int],
        final(v)@ == old(v)@.update(i as int, o),
{
    let mut r = o;
    core::mem::swap(&mut r, &mut v[i]);
    r
}

} // verus!
