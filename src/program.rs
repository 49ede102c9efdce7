//! Running programs: decoding the code words and dispatching each
//! instruction to the frame or the store.

use vstd::prelude::*;

use crate::amount::Amount;
use crate::codec::{decode_words, read_words};
use crate::error::ErrorCode;
use crate::interp::{
    call_spec, empty_regs, fold_items, is_store_op, pure_step, run, run_fold, store_step, Limits,
};
use crate::labels::Labels;
use crate::opcodes::{
    OP_LDL, OP_LDV, OP_LDS, OP_LDD, OP_LDR, OP_STL, OP_STV, OP_STS, OP_STR, OP_PKV, OP_PKL,
    OP_UNPK, OP_T, OP_VPUSH, OP_VPOP, OP_LUNION, OP_LPUSH, OP_LPOP, OP_JADD, OP_JSSB, OP_JXPND,
    OP_JFLTR, OP_ADD, OP_SUB, OP_SSB, OP_MUL, OP_DIV, OP_SQRT, OP_MIN, OP_MAX, OP_VSUM, OP_VMIN,
    OP_VMAX, OP_IMMS, OP_IMML, OP_ZEROS, OP_ONES, OP_B, OP_FOLD, OP_POPN, OP_SWAP, arity,
    word_index,
};
use crate::operand::{values_of, Operand, Value};
use crate::semantics::{Frame, JoinOp};
use crate::stack::{follows, lemma_values_concat, lemma_values_push, lemma_values_subrange, Stack};
use crate::store::{StoreModel, VectorIO};
use crate::vector::Vector;

verus! {

/// How deeply `B` and `FOLD` may nest unless the host says otherwise.
pub const DEFAULT_MAX_DEPTH: usize = 32;

/// The most registers a called frame may ask for unless the host says otherwise.
pub const DEFAULT_MAX_REGISTERS: usize = 1024;

/// The most elements a `FOLD` may visit unless the host says otherwise.
pub const DEFAULT_MAX_FOLD: usize = 65536;

/// The most operands a stack may hold unless the host says otherwise.
pub const DEFAULT_MAX_STACK: usize = 4096;

/// The most code words a program may have unless the host says otherwise.
pub const DEFAULT_MAX_CODE: usize = 65536;

/// Whether `r` reports `expected`: success only with the expected outcome
/// `got`, and, from a reliable store, exactly the expected error.
pub open spec fn reports<T>(r: Result<(), ErrorCode>, reliable: bool, expected: Result<T, ErrorCode>, got: T) -> bool {
    &&& r is Ok ==> expected == Ok::<T, ErrorCode>(got)
    &&& reliable && r is Err ==> expected == Err::<T, ErrorCode>(r->Err_0)
}

/// The virtual machine bound to a store.
pub struct Program<VIO> {
    pub vio: VIO,
    pub limits: Limits,
}

/// A frame for a called program: the operands it receives, and `n_reg` empty registers.
fn callee_frame(moved: Vec<Operand>, n_reg: usize) -> (r: Stack)
    ensures
        r@ == (Frame { stack: values_of(moved@), regs: empty_regs(n_reg as nat) }),
{
    let mut s = Stack::new(n_reg);
    s.stack = moved;
    s
}

/// The operands that a fold pushes, one per element of `source`.
fn fold_operands(source: &Operand) -> (r: Option<Vec<Operand>>)
    ensures
        match r {
            Some(v) => fold_items(source@) == Some(values_of(v@)),
            None => fold_items(source@) is None,
        },
{
    match source {
        Operand::Vector(v) => {
            let ghost items = v.data@.map_values(|x: Amount| Value::Scalar(x));
            let mut out: Vec<Operand> = Vec::new();
            let mut i: usize = 0;
            while i < v.data.len()
                invariant
                    i <= v.data@.len(),
                    items == v.data@.map_values(|x: Amount| Value::Scalar(x)),
                    values_of(out@) =~= items.take(i as int),
                decreases v.data@.len() - i,
            {
                proof {
                    lemma_values_push(out@, Operand::Scalar(v.data@[i as int]));
                }
                out.push(Operand::Scalar(v.data[i]));
                i = i + 1;
            }
            assert(items.take(v.data@.len() as int) =~= items);
            Some(out)
        },
        Operand::Labels(l) => {
            let ghost items = l.data@.map_values(|x: u128| Value::Label(x));
            let mut out: Vec<Operand> = Vec::new();
            let mut i: usize = 0;
            while i < l.data.len()
                invariant
                    i <= l.data@.len(),
                    items == l.data@.map_values(|x: u128| Value::Label(x)),
                    values_of(out@) =~= items.take(i as int),
                decreases l.data@.len() - i,
            {
                proof {
                    lemma_values_push(out@, Operand::Label(l.data@[i as int]));
                }
                out.push(Operand::Label(l.data[i]));
                i = i + 1;
            }
            assert(items.take(l.data@.len() as int) =~= items);
            Some(out)
        },
        _ => None,
    }
}

/// Carries out an instruction that touches neither the store nor other programs.
fn pure_step_exec(stack: &mut Stack, op: u128, a0: u128, a1: u128) -> (r: Result<(), ErrorCode>)
    ensures
        follows(r, old(stack)@, final(stack)@, pure_step(op, a0, a1, old(stack)@)),
{
    let x = word_index(a0);
    let y = word_index(a1);
    if op == OP_LDD {
        stack.ldd(x)
    } else if op == OP_LDR {
        stack.ldr(x)
    } else if op == OP_STR {
        stack.op_str(x)
    } else if op == OP_PKV {
        stack.pkv(x)
    } else if op == OP_PKL {
        stack.pkl(x)
    } else if op == OP_UNPK {
        stack.unpk()
    } else if op == OP_T {
        stack.transpose(x)
    } else if op == OP_VPUSH {
        stack.vpush(a0)
    } else if op == OP_VPOP {
        stack.vpop()
    } else if op == OP_LUNION {
        stack.lunion(x)
    } else if op == OP_LPUSH {
        stack.lpush(a0)
    } else if op == OP_LPOP {
        stack.lpop()
    } else if op == OP_JADD {
        stack.join(JoinOp::Add, x, y)
    } else if op == OP_JSSB {
        stack.join(JoinOp::Ssb, x, y)
    } else if op == OP_JXPND {
        stack.join(JoinOp::Expand, x, y)
    } else if op == OP_JFLTR {
        stack.join(JoinOp::Filter, x, y)
    } else if op == OP_ADD {
        stack.add(x)
    } else if op == OP_SUB {
        stack.sub(x)
    } else if op == OP_SSB {
        stack.ssb(x)
    } else if op == OP_MUL {
        stack.mul(x)
    } else if op == OP_DIV {
        stack.div(x)
    } else if op == OP_SQRT {
        stack.sqrt()
    } else if op == OP_MIN {
        stack.min(x)
    } else if op == OP_MAX {
        stack.max(x)
    } else if op == OP_VSUM {
        stack.vsum()
    } else if op == OP_VMIN {
        stack.vmin()
    } else if op == OP_VMAX {
        stack.vmax()
    } else if op == OP_IMMS {
        stack.imms(a0)
    } else if op == OP_IMML {
        stack.imml(a0)
    } else if op == OP_ZEROS {
        stack.zeros(x)
    } else if op == OP_ONES {
        stack.ones(x)
    } else if op == OP_POPN {
        stack.op_popn(x)
    } else if op == OP_SWAP {
        stack.swap(x)
    } else {
        Err(ErrorCode::InvalidInstruction)
    }
}

impl<VIO: VectorIO> Program<VIO> {
    /// A machine on `vio` with the default limits.
    pub fn new(vio: VIO) -> (r: Self)
        ensures
            r.vio == vio,
            r.limits == (Limits {
                max_depth: DEFAULT_MAX_DEPTH,
                max_registers: DEFAULT_MAX_REGISTERS,
                max_fold: DEFAULT_MAX_FOLD,
                max_stack: DEFAULT_MAX_STACK,
                max_code: DEFAULT_MAX_CODE,
            }),
    {
        Program {
            vio,
            limits: Limits {
                max_depth: DEFAULT_MAX_DEPTH,
                max_registers: DEFAULT_MAX_REGISTERS,
                max_fold: DEFAULT_MAX_FOLD,
                max_stack: DEFAULT_MAX_STACK,
                max_code: DEFAULT_MAX_CODE,
            },
        }
    }

    /// A machine on `vio` with the given limits.
    pub fn with_limits(vio: VIO, limits: Limits) -> (r: Self)
        ensures
            r.vio == vio,
            r.limits == limits,
    {
        Program { vio, limits }
    }

    /// Carries out a load or a store, calling the store once.
    fn store_step_exec(&mut self, stack: &mut Stack, op: u128, a0: u128) -> (r: Result<(), ErrorCode>)
        requires
            is_store_op(op),
        ensures
            reports(
                r,
                old(self).vio.reliable(),
                store_step(op, a0, old(stack)@, old(self).vio.model()),
                (final(stack)@, final(self).vio.model()),
            ),
            final(self).vio.reliable() == old(self).vio.reliable(),
            final(self).limits == old(self).limits,
    {
        if op == OP_LDL {
            match self.vio.load_labels(a0) {
                Ok(l) => {
                    stack.push(Operand::Labels(l));
                    Ok(())
                },
                Err(e) => Err(e),
            }
        } else if op == OP_LDV {
            match self.vio.load_vector(a0) {
                Ok(v) => {
                    stack.push(Operand::Vector(v));
                    Ok(())
                },
                Err(e) => Err(e),
            }
        } else if op == OP_LDS {
            match self.vio.load_scalar(a0) {
                Ok(x) => {
                    stack.push(Operand::Scalar(x));
                    Ok(())
                },
                Err(e) => Err(e),
            }
        } else {
            let top = match stack.pop() {
                Ok(o) => o,
                Err(e) => return Err(e),
            };
            if op == OP_STL {
                match top {
                    Operand::Labels(l) => self.vio.store_labels(a0, l),
                    _ => Err(ErrorCode::InvalidOperand),
                }
            } else if op == OP_STV {
                match top {
                    Operand::Vector(v) => self.vio.store_vector(a0, v),
                    _ => Err(ErrorCode::InvalidOperand),
                }
            } else {
                match top {
                    Operand::Scalar(x) => self.vio.store_scalar(a0, x),
                    _ => Err(ErrorCode::InvalidOperand),
                }
            }
        }
    }

    /// `B` (or, with `fold`, `FOLD`) with its four arguments.
    fn call_exec(
        &mut self,
        stack: &mut Stack,
        fold: bool,
        prg: u128,
        n_in: usize,
        n_out: usize,
        n_reg: usize,
        depth: usize,
    ) -> (r: Result<(), ErrorCode>)
        ensures
            reports(
                r,
                old(self).vio.reliable(),
                call_spec(
                    old(self).limits,
                    fold,
                    prg,
                    n_in as nat,
                    n_out as nat,
                    n_reg as nat,
                    old(stack)@,
                    old(self).vio.model(),
                    depth as nat,
                ),
                (final(stack)@, final(self).vio.model()),
            ),
            final(self).vio.reliable() == old(self).vio.reliable(),
            final(self).limits == old(self).limits,
        decreases depth, 1nat,
    {
        if depth == 0 || n_reg > self.limits.max_registers {
            return Err(ErrorCode::StackOverflow);
        }
        let callee = match self.vio.load_labels(prg) {
            Ok(l) => l.data,
            Err(e) => return Err(e),
        };
        let ghost lim = self.limits;
        let ghost f = old(stack)@;
        if !fold {
            let len = stack.stack.len();
            if n_in > len {
                return Err(ErrorCode::StackUnderflow);
            }
            let moved = stack.stack.split_off(len - n_in);
            proof {
                lemma_values_subrange(old(stack).stack@, (len - n_in) as int, len as int);
                lemma_values_subrange(old(stack).stack@, 0, (len - n_in) as int);
            }
            let mut cs = callee_frame(moved, n_reg);
            match self.run_code(&callee, &mut cs, depth - 1) {
                Ok(()) => {},
                Err(e) => return Err(e),
            }
            let clen = cs.stack.len();
            if n_out > clen {
                return Err(ErrorCode::StackUnderflow);
            }
            let ghost cstack = cs.stack@;
            let ghost below = stack.stack@;
            let mut out = cs.stack.split_off(clen - n_out);
            let ghost outv = out@;
            stack.stack.append(&mut out);
            proof {
                lemma_values_subrange(cstack, (clen - n_out) as int, clen as int);
                lemma_values_concat(below, outv);
            }
            Ok(())
        } else {
            let len = stack.stack.len();
            if len == 0 {
                return Err(ErrorCode::StackUnderflow);
            }
            let source = match stack.pop() {
                Ok(o) => o,
                Err(e) => return Err(e),
            };
            let items = match fold_operands(&source) {
                Some(v) => v,
                None => return Err(ErrorCode::InvalidOperand),
            };
            let ghost items_v = values_of(items@);
            if items.len() > self.limits.max_fold {
                return Err(ErrorCode::StackOverflow);
            }
            let rlen = stack.stack.len();
            if n_in > rlen {
                return Err(ErrorCode::StackUnderflow);
            }
            let ghost rest_ops = stack.stack@;
            let moved = stack.stack.split_off(rlen - n_in);
            proof {
                lemma_values_subrange(rest_ops, (rlen - n_in) as int, rlen as int);
                lemma_values_subrange(rest_ops, 0, (rlen - n_in) as int);
            }
            let mut cs = callee_frame(moved, n_reg);
            let ghost cf0 = cs@;
            let ghost st0 = self.vio.model();
            assert(values_of(rest_ops) == old(stack)@.stack.drop_last()) by {
                assert(old(stack).stack@.drop_last() =~= rest_ops);
                lemma_values_subrange(old(stack).stack@, 0, len - 1);
                assert(old(stack)@.stack.drop_last() =~= values_of(old(stack).stack@).subrange(0, len - 1));
            }
            let mut i: usize = 0;
            while i < items.len()
                invariant
                    depth > 0,
                    i <= items@.len(),
                    items_v == values_of(items@),
                    lim == self.limits,
                lim == old(self).limits,
                self.vio.reliable() == old(self).vio.reliable(),
                    lim == old(self).limits,
                    self.vio.reliable() == old(self).vio.reliable(),
                    run_fold(lim, callee@, items_v, 0, cf0, st0, depth as nat) == run_fold(
                        lim,
                        callee@,
                        items_v,
                        i as nat,
                        cs@,
                        self.vio.model(),
                        depth as nat,
                    ),
                    run_fold(lim, callee@, items_v, 0, cf0, st0, depth as nat) is Err ==> call_spec(
                        lim,
                        fold,
                        prg,
                        n_in as nat,
                        n_out as nat,
                        n_reg as nat,
                        old(stack)@,
                        old(self).vio.model(),
                        depth as nat,
                    ) == Err::<(Frame, StoreModel), ErrorCode>(
                        run_fold(lim, callee@, items_v, 0, cf0, st0, depth as nat)->Err_0,
                    ),
                decreases items@.len() - i,
            {
                let item = items[i].duplicate();
                assert(item@ == items_v[i as int]);
                cs.push(item);
                match self.run_code(&callee, &mut cs, depth - 1) {
                    Ok(()) => {},
                    Err(e) => return Err(e),
                }
                i = i + 1;
            }
            let clen = cs.stack.len();
            if n_out > clen {
                return Err(ErrorCode::StackUnderflow);
            }
            let ghost cstack = cs.stack@;
            let ghost below = stack.stack@;
            let mut out = cs.stack.split_off(clen - n_out);
            let ghost outv = out@;
            stack.stack.append(&mut out);
            proof {
                lemma_values_subrange(cstack, (clen - n_out) as int, clen as int);
                lemma_values_concat(below, outv);
            }
            Ok(())
        }
    }

    /// Runs `code` on `stack` with `depth` levels of calls still allowed.
    fn run_code(&mut self, code: &Vec<u128>, stack: &mut Stack, depth: usize) -> (r: Result<
        (),
        ErrorCode,
    >)
        ensures
            reports(
                r,
                old(self).vio.reliable(),
                run(old(self).limits, code@, 0, old(stack)@, old(self).vio.model(), depth as nat),
                (final(stack)@, final(self).vio.model()),
            ),
            final(self).vio.reliable() == old(self).vio.reliable(),
            final(self).limits == old(self).limits,
        decreases depth, 2nat,
    {
        let ghost lim = self.limits;
        let n = code.len();
        if n > self.limits.max_code {
            return Err(ErrorCode::StackOverflow);
        }
        let mut pc: usize = 0;
        while pc < n
            invariant
                n == code@.len(),
                n <= lim.max_code,
                lim == self.limits,
                lim == old(self).limits,
                self.vio.reliable() == old(self).vio.reliable(),
                run(lim, code@, 0, old(stack)@, old(self).vio.model(), depth as nat) == run(
                    lim,
                    code@,
                    pc as nat,
                    stack@,
                    self.vio.model(),
                    depth as nat,
                ),
            decreases n - pc,
        {
            let op = code[pc];
            let k = match arity(op) {
                Some(k) => k,
                None => return Err(ErrorCode::InvalidInstruction),
            };
            if k >= n - pc {
                return Err(ErrorCode::InvalidInstruction);
            }
            let a0 = if k >= 1 {
                code[pc + 1]
            } else {
                0
            };
            let a1 = if k >= 2 {
                code[pc + 2]
            } else {
                0
            };
            if op == OP_B || op == OP_FOLD {
                let res = self.call_exec(
                    stack,
                    op == OP_FOLD,
                    a0,
                    word_index(a1),
                    word_index(code[pc + 3]),
                    word_index(code[pc + 4]),
                    depth,
                );
                if let Err(e) = res {
                    return Err(e);
                }
            } else if op == OP_LDL || op == OP_LDV || op == OP_LDS || op == OP_STL || op == OP_STV
                || op == OP_STS {
                if let Err(e) = self.store_step_exec(stack, op, a0) {
                    return Err(e);
                }
            } else {
                if let Err(e) = pure_step_exec(stack, op, a0, a1) {
                    return Err(e);
                }
            }
            if stack.depth() > self.limits.max_stack {
                return Err(ErrorCode::StackOverflow);
            }
            pc = pc + 1 + k;
        }
        Ok(())
    }

    /// Runs `code` on `stack`, with calls nested at most `limits.max_depth`
    /// deep. The store is called once per executed load, store and call, in
    /// program order; each successful write is recorded in its model. Making
    /// a failed run's writes disappear is the host's transaction, not the
    /// engine's.
    pub fn execute_with_stack(&mut self, code: Vec<u128>, stack: &mut Stack) -> (r: Result<(), ErrorCode>)
        ensures
            reports(
                r,
                old(self).vio.reliable(),
                run(
                    old(self).limits,
                    code@,
                    0,
                    old(stack)@,
                    old(self).vio.model(),
                    old(self).limits.max_depth as nat,
                ),
                (final(stack)@, final(self).vio.model()),
            ),
            final(self).vio.reliable() == old(self).vio.reliable(),
            final(self).limits == old(self).limits,
    {
        let depth = self.limits.max_depth;
        self.run_code(&code, stack, depth)
    }

    /// Runs the program whose code words `code_bytes` holds (16 little-endian
    /// bytes each) on a fresh frame with `num_registers` empty registers. A
    /// byte count that is not a multiple of 16 is a truncated instruction.
    pub fn execute(&mut self, code_bytes: Vec<u8>, num_registers: usize) -> (r: Result<(), ErrorCode>)
        ensures
            code_bytes@.len() % 16 != 0 ==> r == Err::<(), ErrorCode>(ErrorCode::InvalidInstruction)
                && final(self).vio == old(self).vio,
            code_bytes@.len() % 16 == 0 ==> {
                let expected = run(
                    old(self).limits,
                    decode_words(code_bytes@),
                    0,
                    Frame { stack: Seq::empty(), regs: empty_regs(num_registers as nat) },
                    old(self).vio.model(),
                    old(self).limits.max_depth as nat,
                );
                &&& r is Ok ==> expected is Ok && expected->Ok_0.1 == final(self).vio.model()
                &&& old(self).vio.reliable() && r is Err ==> expected == Err::<(Frame, StoreModel), ErrorCode>(r->Err_0)
            },
            final(self).vio.reliable() == old(self).vio.reliable(),
            final(self).limits == old(self).limits,
    {
        if code_bytes.len() % 16 != 0 {
            return Err(ErrorCode::InvalidInstruction);
        }
        let code = read_words(code_bytes.as_slice());
        let mut stack = Stack::new(num_registers);
        proof {
            assert(stack@ == (Frame { stack: Seq::empty(), regs: empty_regs(num_registers as nat) }));
        }
        self.execute_with_stack(code, &mut stack)
    }
}

} // verus!
