//! Distribution of executed asset fills over a batch of index orders.

use vstd::prelude::*;

use crate::amount::{add_spec, div_spec, mul_spec, ssb_spec, Amount, SCALE};
use crate::operand::copy_amounts;
use crate::quoter::filled;
use crate::vector::Vector;

verus! {

/// The filler's inputs: executed prices, fees and quantities per asset,
/// the row-major coefficient and individual asset quantity matrices
/// (assets in rows, orders in columns), and each order's fitted quantity.
pub struct FillInputs {
    pub axpxes: Seq<Amount>,
    pub axfees: Seq<Amount>,
    pub axqtys: Seq<Amount>,
    pub coeffs: Seq<Amount>,
    pub iaqtys: Seq<Amount>,
    pub quotes: Seq<Amount>,
}

/// Everything the filler computes, while it computes it.
pub struct FillState {
    pub ifills: Seq<Amount>,
    pub ixqtys: Seq<Amount>,
    pub aafees: Seq<Amount>,
    pub aaqtys: Seq<Amount>,
    pub ccovrs: Seq<Amount>,
    pub acovrs: Seq<Amount>,
    pub total: Amount,
}

/// Entry `(r, c)` of the fill-rate pass: where `coeffs[r, c] * axqtys[r]`
/// falls short of `iaqtys[r, c]`, the fill rate of order `c` drops to at
/// most that fraction.
pub open spec fn rate_cell(inp: FillInputs, cols: nat, s: FillState, r: int, c: int) -> Option<FillState> {
    let k = r * cols + c;
    match mul_spec(inp.coeffs[k], inp.axqtys[r]) {
        Some(fill_qty) => if fill_qty.0 < inp.iaqtys[k].0 {
            match div_spec(fill_qty, inp.iaqtys[k]) {
                Some(rate) => if rate.0 < s.ifills[c].0 {
                    Some(FillState { ifills: s.ifills.update(c, rate), ..s })
                } else {
                    Some(s)
                },
                None => None,
            }
        } else {
            Some(s)
        },
        None => None,
    }
}

/// Entry `(r, c)` of the assignment pass: order `c`'s filled quantity is
/// its fill rate times its quote; asset `r` is assigned `coeffs[r, c]`
/// times that of the executed quantity and fee, capped at `iaqtys[r, c]`
/// with the fee reduced in proportion; the assigned quantity comes off the
/// asset's carry-over and its cost (value plus fee) off the order's
/// collateral, both saturating at zero; the value adds to the total.
pub open spec fn assign_cell(inp: FillInputs, cols: nat, s: FillState, r: int, c: int) -> Option<FillState> {
    let k = r * cols + c;
    let max_qty = inp.iaqtys[k];
    match mul_spec(s.ifills[c], inp.quotes[c]) {
        None => None,
        Some(ixq) => match mul_spec(inp.coeffs[k], ixq) {
            None => None,
            Some(coeff) => match (mul_spec(coeff, inp.axfees[r]), mul_spec(coeff, inp.axqtys[r])) {
                (Some(fee), Some(qty)) => {
                    let capped: Option<(Amount, Amount)> = if qty.0 < max_qty.0 {
                        Some((qty, fee))
                    } else {
                        match div_spec(max_qty, qty) {
                            Some(frac) => match mul_spec(frac, fee) {
                                Some(f) => Some((max_qty, f)),
                                None => None,
                            },
                            None => None,
                        }
                    };
                    match capped {
                        None => None,
                        Some((aq, af)) => match mul_spec(aq, inp.axpxes[r]) {
                            None => None,
                            Some(val) => match (add_spec(val, af), add_spec(s.total, val)) {
                                (Some(cost), Some(t)) => Some(
                                    FillState {
                                        ixqtys: s.ixqtys.update(c, ixq),
                                        aaqtys: s.aaqtys.update(k, aq),
                                        aafees: s.aafees.update(k, af),
                                        acovrs: s.acovrs.update(r, ssb_spec(s.acovrs[r], aq)),
                                        ccovrs: s.ccovrs.update(c, ssb_spec(s.ccovrs[c], cost)),
                                        total: t,
                                        ..s
                                    },
                                ),
                                _ => None,
                            },
                        },
                    }
                },
                _ => None,
            },
        },
    }
}

pub open spec fn fill_cell(inp: FillInputs, cols: nat, assign: bool, s: FillState, r: int, c: int) -> Option<FillState> {
    if assign {
        assign_cell(inp, cols, s, r, c)
    } else {
        rate_cell(inp, cols, s, r, c)
    }
}

/// The state before entry `(r, c)` is visited, entries being visited row by row.
pub open spec fn fill_walk(inp: FillInputs, cols: nat, assign: bool, init: FillState, r: nat, c: nat) -> Option<FillState>
    decreases r, c,
{
    if c == 0 {
        if r == 0 {
            Some(init)
        } else {
            fill_walk(inp, cols, assign, init, (r - 1) as nat, cols)
        }
    } else {
        match fill_walk(inp, cols, assign, init, r, (c - 1) as nat) {
            Some(s) => fill_cell(inp, cols, assign, s, r as int, c - 1),
            None => None,
        }
    }
}

pub proof fn lemma_fill_failure_persists(
    inp: FillInputs,
    cols: nat,
    assign: bool,
    init: FillState,
    r: nat,
    c: nat,
    r2: nat,
    c2: nat,
)
    requires
        fill_walk(inp, cols, assign, init, r, c) is None,
        c <= cols,
        c2 <= cols,
        r < r2 || (r == r2 && c <= c2),
    ensures
        fill_walk(inp, cols, assign, init, r2, c2) is None,
    decreases r2, c2,
{
    if r2 == r && c2 == c {
    } else if c2 > 0 {
        lemma_fill_failure_persists(inp, cols, assign, init, r, c, r2, (c2 - 1) as nat);
    } else {
        lemma_fill_failure_persists(inp, cols, assign, init, r, c, (r2 - 1) as nat, cols);
    }
}

/// The whole distribution: the fill-rate pass, then, from a zero total,
/// the assignment pass.
pub open spec fn fill_spec(inp: FillInputs, rows: nat, cols: nat, init: FillState) -> Option<FillState> {
    match fill_walk(inp, cols, false, init, rows, 0) {
        None => None,
        Some(s) => fill_walk(inp, cols, true, FillState { total: Amount(0), ..s }, rows, 0),
    }
}

/// The lengths of the filler's state for `rows` assets and `cols` orders.
pub open spec fn fill_shaped(s: FillState, rows: nat, cols: nat) -> bool {
    &&& s.ifills.len() == cols
    &&& s.ixqtys.len() == cols
    &&& s.ccovrs.len() == cols
    &&& s.acovrs.len() == rows
    &&& s.aafees.len() >= rows * cols
    &&& s.aaqtys.len() >= rows * cols
}

/// The filler's working vectors.
pub struct FillWork {
    pub ifills: Vec<Amount>,
    pub ixqtys: Vec<Amount>,
    pub aafees: Vec<Amount>,
    pub aaqtys: Vec<Amount>,
    pub ccovrs: Vec<Amount>,
    pub acovrs: Vec<Amount>,
    pub total: Amount,
}

impl View for FillWork {
    type V = FillState;

    open spec fn view(&self) -> FillState {
        FillState {
            ifills: self.ifills@,
            ixqtys: self.ixqtys@,
            aafees: self.aafees@,
            aaqtys: self.aaqtys@,
            ccovrs: self.ccovrs@,
            acovrs: self.acovrs@,
            total: self.total,
        }
    }
}

/// The filler's inputs as borrowed vectors.
pub struct FillRefs<'a> {
    pub axpxes: &'a Vec<Amount>,
    pub axfees: &'a Vec<Amount>,
    pub axqtys: &'a Vec<Amount>,
    pub coeffs: &'a Vec<Amount>,
    pub iaqtys: &'a Vec<Amount>,
    pub quotes: &'a Vec<Amount>,
}

impl<'a> FillRefs<'a> {
    pub open spec fn inputs(&self) -> FillInputs {
        FillInputs {
            axpxes: self.axpxes@,
            axfees: self.axfees@,
            axqtys: self.axqtys@,
            coeffs: self.coeffs@,
            iaqtys: self.iaqtys@,
            quotes: self.quotes@,
        }
    }

    pub open spec fn sized(&self, rows: nat, cols: nat) -> bool {
        &&& self.axpxes@.len() >= rows
        &&& self.axfees@.len() >= rows
        &&& self.axqtys@.len() >= rows
        &&& self.coeffs@.len() >= rows * cols
        &&& self.iaqtys@.len() >= rows * cols
        &&& self.quotes@.len() >= cols
    }
}

fn fill_cell_exec(inp: &FillRefs, cols: usize, assign: bool, w: &mut FillWork, r: usize, c: usize, k: usize, rows: usize) -> (ok: bool)
    requires
        k == r * cols + c,
        c < cols,
        r < rows,
        inp.sized(rows as nat, cols as nat),
        fill_shaped(old(w)@, rows as nat, cols as nat),
    ensures
        ok == fill_cell(inp.inputs(), cols as nat, assign, old(w)@, r as int, c as int) is Some,
        ok ==> final(w)@ == fill_cell(inp.inputs(), cols as nat, assign, old(w)@, r as int, c as int)->Some_0,
        !ok ==> final(w)@ == old(w)@,
        fill_shaped(final(w)@, rows as nat, cols as nat),
{
    proof {
        assert(k < rows * cols) by (nonlinear_arith)
            requires
                k == r * cols + c,
                c < cols,
                r < rows,
        ;
    }
    if !assign {
        let fill_qty = match inp.coeffs[k].checked_mul(inp.axqtys[r]) {
            Some(v) => v,
            None => return false,
        };
        let max_qty = inp.iaqtys[k];
        if fill_qty.0 < max_qty.0 {
            let rate = match fill_qty.checked_div(max_qty) {
                Some(v) => v,
                None => return false,
            };
            if rate.0 < w.ifills[c].0 {
                w.ifills.set(c, rate);
            }
        }
        true
    } else {
        let max_qty = inp.iaqtys[k];
        let ixq = match w.ifills[c].checked_mul(inp.quotes[c]) {
            Some(v) => v,
            None => return false,
        };
        let coeff = match inp.coeffs[k].checked_mul(ixq) {
            Some(v) => v,
            None => return false,
        };
        let fee = match coeff.checked_mul(inp.axfees[r]) {
            Some(v) => v,
            None => return false,
        };
        let qty = match coeff.checked_mul(inp.axqtys[r]) {
            Some(v) => v,
            None => return false,
        };
        let (aq, af) = if qty.0 < max_qty.0 {
            (qty, fee)
        } else {
            let frac = match max_qty.checked_div(qty) {
                Some(v) => v,
                None => return false,
            };
            let f = match frac.checked_mul(fee) {
                Some(v) => v,
                None => return false,
            };
            (max_qty, f)
        };
        let val = match aq.checked_mul(inp.axpxes[r]) {
            Some(v) => v,
            None => return false,
        };
        let cost = match val.checked_add(af) {
            Some(v) => v,
            None => return false,
        };
        let t = match w.total.checked_add(val) {
            Some(v) => v,
            None => return false,
        };
        let ac = w.acovrs[r].saturating_sub(aq);
        let cc = w.ccovrs[c].saturating_sub(cost);
        w.ixqtys.set(c, ixq);
        w.aaqtys.set(k, aq);
        w.aafees.set(k, af);
        w.acovrs.set(r, ac);
        w.ccovrs.set(c, cc);
        w.total = t;
        true
    }
}

fn fill_pass_exec(inp: &FillRefs, rows: usize, cols: usize, assign: bool, w: &mut FillWork) -> (ok: bool)
    requires
        inp.sized(rows as nat, cols as nat),
        rows * cols <= usize::MAX,
        fill_shaped(old(w)@, rows as nat, cols as nat),
    ensures
        ok == fill_walk(inp.inputs(), cols as nat, assign, old(w)@, rows as nat, 0) is Some,
        ok ==> final(w)@ == fill_walk(inp.inputs(), cols as nat, assign, old(w)@, rows as nat, 0)->Some_0,
        fill_shaped(final(w)@, rows as nat, cols as nat),
{
    let ghost q = inp.inputs();
    let ghost init = w@;
    let mut r: usize = 0;
    let mut offset: usize = 0;
    while r < rows
        invariant
            inp.sized(rows as nat, cols as nat),
            rows * cols <= usize::MAX,
            q == inp.inputs(),
            init == old(w)@,
            r <= rows,
            offset == r * cols,
            fill_shaped(w@, rows as nat, cols as nat),
            fill_walk(q, cols as nat, assign, init, r as nat, 0) == Some(w@),
        decreases rows - r,
    {
        proof {
            assert(offset + cols <= rows * cols) by (nonlinear_arith)
                requires
                    offset == r * cols,
                    r < rows,
            ;
        }
        let mut c: usize = 0;
        while c < cols
            invariant
                inp.sized(rows as nat, cols as nat),
                rows * cols <= usize::MAX,
                q == inp.inputs(),
                init == old(w)@,
                r < rows,
                c <= cols,
                offset == r * cols,
                offset + cols <= rows * cols,
                fill_shaped(w@, rows as nat, cols as nat),
                fill_walk(q, cols as nat, assign, init, r as nat, c as nat) == Some(w@),
            decreases cols - c,
        {
            let ghost before = w@;
            let ok = fill_cell_exec(inp, cols, assign, w, r, c, offset + c, rows);
            if !ok {
                proof {
                    assert(fill_walk(q, cols as nat, assign, init, r as nat, (c + 1) as nat) is None);
                    lemma_fill_failure_persists(q, cols as nat, assign, init, r as nat, (c + 1) as nat, rows as nat, 0);
                }
                return false;
            }
            c = c + 1;
        }
        proof {
            assert((r + 1) * cols == r * cols + cols) by (nonlinear_arith);
        }
        r = r + 1;
        offset = offset + cols;
    }
    true
}

/// Distributes executed fills over a batch of index orders.
pub struct Filler {
    pub axpxes: Vector,
    pub axfees: Vector,
    pub axqtys: Vector,
    pub coeffs: Vector,
    pub iaqtys: Vector,
    pub quotes: Vector,
    pub collat: Vector,
    pub ifills: Vector,
    pub ixqtys: Vector,
    pub aafees: Vector,
    pub aaqtys: Vector,
    pub ccovrs: Vector,
    pub acovrs: Vector,
}

impl Filler {
    pub open spec fn inputs(&self) -> FillInputs {
        FillInputs {
            axpxes: self.axpxes.data@,
            axfees: self.axfees.data@,
            axqtys: self.axqtys.data@,
            coeffs: self.coeffs.data@,
            iaqtys: self.iaqtys.data@,
            quotes: self.quotes.data@,
        }
    }

    pub open spec fn outputs(&self, total: Amount) -> FillState {
        FillState {
            ifills: self.ifills.data@,
            ixqtys: self.ixqtys.data@,
            aafees: self.aafees.data@,
            aaqtys: self.aaqtys.data@,
            ccovrs: self.ccovrs.data@,
            acovrs: self.acovrs.data@,
            total,
        }
    }

    /// The number of assets (matrix rows).
    pub open spec fn rows(&self) -> nat {
        self.axpxes.data@.len()
    }

    /// The number of orders (matrix columns).
    pub open spec fn cols(&self) -> nat {
        self.coeffs.data@.len() / self.axpxes.data@.len()
    }

    /// The shape that `new` gives the outputs.
    pub open spec fn wf(&self) -> bool {
        let rows = self.rows();
        let cols = self.cols();
        &&& rows > 0
        &&& self.axqtys.data@.len() == rows
        &&& rows * cols <= self.coeffs.data@.len()
        &&& fill_shaped(self.outputs(Amount(0)), rows, cols)
    }

    /// Whether the fees, individual quantities and quotes cover every
    /// entry that `fill` reads.
    pub open spec fn covers(&self) -> bool {
        let rows = self.rows();
        let cols = self.cols();
        &&& self.axfees.data@.len() >= rows
        &&& self.iaqtys.data@.len() >= rows * cols
        &&& self.quotes.data@.len() >= cols
    }

    /// A filler with every order's fill rate at one, nothing assigned yet,
    /// and carry-overs equal to the collateral and to the executed
    /// quantities.
    pub fn new(
        axpxes: Vector,
        axfees: Vector,
        axqtys: Vector,
        coeffs: Vector,
        iaqtys: Vector,
        quotes: Vector,
        collat: Vector,
    ) -> (r: Self)
        requires
            axpxes.data@.len() > 0,
            coeffs.data@.len() > 0,
            axqtys.data@.len() == axpxes.data@.len(),
            collat.data@.len() == coeffs.data@.len() / axpxes.data@.len(),
        ensures
            r.wf(),
            r.inputs() == (FillInputs {
                axpxes: axpxes.data@,
                axfees: axfees.data@,
                axqtys: axqtys.data@,
                coeffs: coeffs.data@,
                iaqtys: iaqtys.data@,
                quotes: quotes.data@,
            }),
            r.collat == collat,
            r.ifills.data@ == Seq::new(collat.data@.len(), |i: int| Amount(SCALE)),
            r.ixqtys.data@ == Seq::new(collat.data@.len(), |i: int| Amount(0)),
            r.aafees.data@ == Seq::new(coeffs.data@.len(), |i: int| Amount(0)),
            r.aaqtys.data@ == Seq::new(coeffs.data@.len(), |i: int| Amount(0)),
            r.ccovrs.data@ == collat.data@,
            r.acovrs.data@ == axqtys.data@,
    {
        let num_assets = axpxes.data.len();
        let num_coeffs = coeffs.data.len();
        let num_orders = num_coeffs / num_assets;
        proof {
            vstd::arithmetic::div_mod::lemma_fundamental_div_mod(num_coeffs as int, num_assets as int);
            assert(num_assets * num_orders <= num_coeffs) by (nonlinear_arith)
                requires
                    num_coeffs == num_assets * num_orders + num_coeffs % num_assets,
                    num_coeffs % num_assets >= 0,
            ;
        }
        let ixqtys = Vector { data: filled(num_orders, Amount(0)) };
        let aafees = Vector { data: filled(num_coeffs, Amount(0)) };
        let aaqtys = Vector { data: filled(num_coeffs, Amount(0)) };
        let ifills = Vector { data: filled(num_orders, Amount(SCALE)) };
        let ccovrs = Vector { data: copy_amounts(&collat.data) };
        let acovrs = Vector { data: copy_amounts(&axqtys.data) };
        Filler {
            axpxes,
            axfees,
            axqtys,
            coeffs,
            iaqtys,
            quotes,
            collat,
            ifills,
            ixqtys,
            aafees,
            aaqtys,
            ccovrs,
            acovrs,
        }
    }

    /// Computes fill rates, then assigns quantities and fees and updates the
    /// carry-overs (see `fill_spec`); returns the total assigned value, or
    /// `None`, leaving the filler as it was, where an amount does not fit
    /// or a division fails.
    pub fn fill(&mut self) -> (r: Option<Amount>)
        requires
            old(self).wf(),
            old(self).covers(),
        ensures
            final(self).wf(),
            final(self).inputs() == old(self).inputs(),
            final(self).collat == old(self).collat,
            fill_spec(old(self).inputs(), old(self).rows(), old(self).cols(), old(self).outputs(Amount(0)))
                == match r {
                Some(total) => Some(final(self).outputs(total)),
                None => None::<FillState>,
            },
            r is None ==> *final(self) == *old(self),
    {
        let rows = self.axpxes.data.len();
        let cols = self.coeffs.data.len() / rows;
        let mut w = FillWork {
            ifills: copy_amounts(&self.ifills.data),
            ixqtys: copy_amounts(&self.ixqtys.data),
            aafees: copy_amounts(&self.aafees.data),
            aaqtys: copy_amounts(&self.aaqtys.data),
            ccovrs: copy_amounts(&self.ccovrs.data),
            acovrs: copy_amounts(&self.acovrs.data),
            total: Amount(0),
        };
        let ok = {
            let refs = FillRefs {
                axpxes: &self.axpxes.data,
                axfees: &self.axfees.data,
                axqtys: &self.axqtys.data,
                coeffs: &self.coeffs.data,
                iaqtys: &self.iaqtys.data,
                quotes: &self.quotes.data,
            };
            assert(refs.inputs() == self.inputs());
            if !fill_pass_exec(&refs, rows, cols, false, &mut w) {
                false
            } else {
                w.total = Amount(0);
                fill_pass_exec(&refs, rows, cols, true, &mut w)
            }
        };
        if !ok {
            return None;
        }
        let ghost fin = w@;
        self.ifills = Vector { data: w.ifills };
        self.ixqtys = Vector { data: w.ixqtys };
        self.aafees = Vector { data: w.aafees };
        self.aaqtys = Vector { data: w.aaqtys };
        self.ccovrs = Vector { data: w.ccovrs };
        self.acovrs = Vector { data: w.acovrs };
        assert(self.outputs(w.total) == fin);
        Some(w.total)
    }
}

} // verus!
