//! Strategy for a batch of index orders: index prices, fitted quantities,
//! per-asset quantities and values, fitted to the available liquidity.

use vstd::prelude::*;

use crate::amount::{add_spec, div_spec, mul_spec, Amount, SCALE};
use crate::operand::copy_amounts;
use crate::quoter::filled;
use crate::vector::Vector;

verus! {

/// The solver's inputs: per-asset prices and liquidity, the row-major
/// matrix of basket quantities (assets in rows, orders in columns) and the
/// collateral of each order.
pub struct SolveInputs {
    pub prices: Seq<Amount>,
    pub liquid: Seq<Amount>,
    pub matrix: Seq<Amount>,
    pub collat: Seq<Amount>,
}

/// Everything the solver computes, while it computes it.
pub struct SolveState {
    pub netavs: Seq<Amount>,
    pub quotes: Seq<Amount>,
    pub iaqtys: Seq<Amount>,
    pub iavals: Seq<Amount>,
    pub assets: Seq<Amount>,
    pub coeffs: Seq<Amount>,
    pub fills: Seq<Amount>,
    pub total: Amount,
}

/// The four passes of the solver that walk the matrix.
#[derive(Clone, Copy, PartialEq, Eq, Structural, Debug)]
pub enum Pass {
    /// Index prices: `netavs[c] += matrix[r, c] * prices[r]`.
    Prices,
    /// Asset quantities: `iaqtys[r, c] = matrix[r, c] * quotes[c]` and
    /// `assets[r] += iaqtys[r, c]`, skipping zero weights.
    Quantities,
    /// Liquidity fit: `coeffs[r, c] = iaqtys[r, c] / assets[r]`; where
    /// `liquid[r] * coeffs[r, c]` falls short of `iaqtys[r, c]`, the fill
    /// rate of order `c` drops to at most the fraction available; after
    /// each row, `assets[r]` is capped at `liquid[r]`.
    Fit,
    /// Filled quantities and values: `iaqtys[r, c] *= fills[c]`,
    /// `iavals[r, c] = iaqtys[r, c] * prices[r]`, summed into `total`.
    Values,
}

/// The pass's work on matrix entry `(r, c)`, `cols` entries to a row.
pub open spec fn cell(inp: SolveInputs, cols: nat, pass: Pass, s: SolveState, r: int, c: int) -> Option<SolveState> {
    let k = r * cols + c;
    match pass {
        Pass::Prices => match mul_spec(inp.matrix[k], inp.prices[r]) {
            Some(v) => match add_spec(s.netavs[c], v) {
                Some(n) => Some(SolveState { netavs: s.netavs.update(c, n), ..s }),
                None => None,
            },
            None => None,
        },
        Pass::Quantities => if inp.matrix[k].0 == 0 {
            Some(s)
        } else {
            match mul_spec(inp.matrix[k], s.quotes[c]) {
                Some(q) => match add_spec(s.assets[r], q) {
                    Some(a) => Some(
                        SolveState { iaqtys: s.iaqtys.update(k, q), assets: s.assets.update(r, a), ..s },
                    ),
                    None => None,
                },
                None => None,
            }
        },
        Pass::Fit => match div_spec(s.iaqtys[k], s.assets[r]) {
            Some(coeff) => match mul_spec(inp.liquid[r], coeff) {
                Some(available) => {
                    let with_coeff = SolveState { coeffs: s.coeffs.update(k, coeff), ..s };
                    if available.0 < s.iaqtys[k].0 {
                        match div_spec(available, s.iaqtys[k]) {
                            Some(frac) => if frac.0 < s.fills[c].0 {
                                Some(SolveState { fills: s.fills.update(c, frac), ..with_coeff })
                            } else {
                                Some(with_coeff)
                            },
                            None => None,
                        }
                    } else {
                        Some(with_coeff)
                    }
                },
                None => None,
            },
            None => None,
        },
        Pass::Values => match mul_spec(s.iaqtys[k], s.fills[c]) {
            Some(q) => match mul_spec(q, inp.prices[r]) {
                Some(v) => match add_spec(s.total, v) {
                    Some(t) => Some(
                        SolveState { iaqtys: s.iaqtys.update(k, q), iavals: s.iavals.update(k, v), total: t, ..s },
                    ),
                    None => None,
                },
                None => None,
            },
            None => None,
        },
    }
}

/// The pass's work at the end of row `r`.
pub open spec fn row_end(inp: SolveInputs, pass: Pass, s: SolveState, r: int) -> SolveState {
    if pass == Pass::Fit && inp.liquid[r].0 < s.assets[r].0 {
        SolveState { assets: s.assets.update(r, inp.liquid[r]), ..s }
    } else {
        s
    }
}

/// The state before entry `(r, c)` is visited, entries being visited row by row.
pub open spec fn walk(inp: SolveInputs, cols: nat, pass: Pass, init: SolveState, r: nat, c: nat) -> Option<SolveState>
    decreases r, c,
{
    if c == 0 {
        if r == 0 {
            Some(init)
        } else {
            match walk(inp, cols, pass, init, (r - 1) as nat, cols) {
                Some(s) => Some(row_end(inp, pass, s, r - 1)),
                None => None,
            }
        }
    } else {
        match walk(inp, cols, pass, init, r, (c - 1) as nat) {
            Some(s) => cell(inp, cols, pass, s, r as int, c - 1),
            None => None,
        }
    }
}

pub proof fn lemma_walk_failure_persists(
    inp: SolveInputs,
    cols: nat,
    pass: Pass,
    init: SolveState,
    r: nat,
    c: nat,
    r2: nat,
    c2: nat,
)
    requires
        walk(inp, cols, pass, init, r, c) is None,
        c <= cols,
        c2 <= cols,
        r < r2 || (r == r2 && c <= c2),
    ensures
        walk(inp, cols, pass, init, r2, c2) is None,
    decreases r2, c2,
{
    if r2 == r && c2 == c {
    } else if c2 > 0 {
        lemma_walk_failure_persists(inp, cols, pass, init, r, c, r2, (c2 - 1) as nat);
    } else {
        lemma_walk_failure_persists(inp, cols, pass, init, r, c, (r2 - 1) as nat, cols);
    }
}

/// Each order's quantity: its collateral over its index price.
pub open spec fn fitted_quotes(collat: Seq<Amount>, netavs: Seq<Amount>) -> Option<Seq<Amount>> {
    if forall|c: int| 0 <= c < collat.len() ==> (#[trigger] div_spec(collat[c], netavs[c])) is Some {
        Some(Seq::new(collat.len(), |c: int| div_spec(collat[c], netavs[c])->Some_0))
    } else {
        None
    }
}

/// Each order's quantity reduced by its fill rate.
pub open spec fn reduced_quotes(quotes: Seq<Amount>, fills: Seq<Amount>) -> Option<Seq<Amount>> {
    if forall|c: int| 0 <= c < quotes.len() ==> (#[trigger] mul_spec(quotes[c], fills[c])) is Some {
        Some(Seq::new(quotes.len(), |c: int| mul_spec(quotes[c], fills[c])->Some_0))
    } else {
        None
    }
}

/// The whole strategy, from the solver's state before it runs: index
/// prices, fitted quantities, asset quantities, the liquidity fit with
/// every fill rate starting at one, reduced quantities, and filled
/// quantities and values with their total.
pub open spec fn solve_spec(inp: SolveInputs, init: SolveState) -> Option<SolveState> {
    let rows = inp.prices.len();
    let cols = inp.collat.len();
    match walk(inp, cols, Pass::Prices, init, rows, 0) {
        None => None,
        Some(priced) => match fitted_quotes(inp.collat, priced.netavs) {
            None => None,
            Some(q) => match walk(inp, cols, Pass::Quantities, SolveState { quotes: q, ..priced }, rows, 0) {
                None => None,
                Some(allotted) => match walk(
                    inp,
                    cols,
                    Pass::Fit,
                    SolveState { fills: Seq::new(cols, |c: int| Amount(SCALE)), ..allotted },
                    rows,
                    0,
                ) {
                    None => None,
                    Some(fitted) => match reduced_quotes(fitted.quotes, fitted.fills) {
                        None => None,
                        Some(q2) => walk(
                            inp,
                            cols,
                            Pass::Values,
                            SolveState { quotes: q2, total: Amount(0), ..fitted },
                            rows,
                            0,
                        ),
                    },
                },
            },
        },
    }
}


/// The solver's working vectors.
pub struct Work {
    pub netavs: Vec<Amount>,
    pub quotes: Vec<Amount>,
    pub iaqtys: Vec<Amount>,
    pub iavals: Vec<Amount>,
    pub assets: Vec<Amount>,
    pub coeffs: Vec<Amount>,
    pub fills: Vec<Amount>,
    pub total: Amount,
}

impl View for Work {
    type V = SolveState;

    open spec fn view(&self) -> SolveState {
        SolveState {
            netavs: self.netavs@,
            quotes: self.quotes@,
            iaqtys: self.iaqtys@,
            iavals: self.iavals@,
            assets: self.assets@,
            coeffs: self.coeffs@,
            fills: self.fills@,
            total: self.total,
        }
    }
}

/// The lengths of the solver's state for `rows` assets and `cols` orders.
pub open spec fn shaped(s: SolveState, rows: nat, cols: nat) -> bool {
    &&& s.netavs.len() == cols
    &&& s.quotes.len() == cols
    &&& s.fills.len() == cols
    &&& s.assets.len() == rows
    &&& s.iaqtys.len() == rows * cols
    &&& s.iavals.len() == rows * cols
    &&& s.coeffs.len() == rows * cols
}

pub proof fn lemma_cell_keeps_shape(inp: SolveInputs, cols: nat, pass: Pass, s: SolveState, r: int, c: int, rows: nat)
    requires
        shaped(s, rows, cols),
        0 <= r < rows,
        0 <= c < cols,
        cell(inp, cols, pass, s, r, c) is Some,
    ensures
        shaped(cell(inp, cols, pass, s, r, c)->Some_0, rows, cols),
{
    assert(r * cols + c < rows * cols) by (nonlinear_arith)
        requires
            0 <= r < rows,
            0 <= c < cols,
    ;
}

/// Carries out the pass's work on entry `(r, c)`; `false` where the spec fails.
fn cell_exec(
    prices: &Vec<Amount>,
    liquid: &Vec<Amount>,
    matrix: &Vec<Amount>,
    collat: &Vec<Amount>,
    cols: usize,
    pass: Pass,
    w: &mut Work,
    r: usize,
    c: usize,
    k: usize,
) -> (ok: bool)
    requires
        k == r * cols + c,
        c < cols,
        r < prices@.len(),
        liquid@.len() == prices@.len(),
        matrix@.len() == prices@.len() * cols,
        shaped(old(w)@, prices@.len(), cols as nat),
    ensures
        ok == cell(
            SolveInputs { prices: prices@, liquid: liquid@, matrix: matrix@, collat: collat@ },
            cols as nat,
            pass,
            old(w)@,
            r as int,
            c as int,
        ) is Some,
        ok ==> final(w)@ == cell(
            SolveInputs { prices: prices@, liquid: liquid@, matrix: matrix@, collat: collat@ },
            cols as nat,
            pass,
            old(w)@,
            r as int,
            c as int,
        )->Some_0,
        !ok ==> final(w)@ == old(w)@,
{
    proof {
        assert(k < prices@.len() * cols) by (nonlinear_arith)
            requires
                k == r * cols + c,
                c < cols,
                r < prices@.len(),
        ;
    }
    match pass {
        Pass::Prices => {
            let v = match matrix[k].checked_mul(prices[r]) {
                Some(v) => v,
                None => return false,
            };
            let n = match w.netavs[c].checked_add(v) {
                Some(n) => n,
                None => return false,
            };
            w.netavs.set(c, n);
            true
        },
        Pass::Quantities => {
            if matrix[k].0 == 0 {
                return true;
            }
            let q = match matrix[k].checked_mul(w.quotes[c]) {
                Some(q) => q,
                None => return false,
            };
            let a = match w.assets[r].checked_add(q) {
                Some(a) => a,
                None => return false,
            };
            w.iaqtys.set(k, q);
            w.assets.set(r, a);
            true
        },
        Pass::Fit => {
            let coeff = match w.iaqtys[k].checked_div(w.assets[r]) {
                Some(v) => v,
                None => return false,
            };
            let available = match liquid[r].checked_mul(coeff) {
                Some(v) => v,
                None => return false,
            };
            if available.0 < w.iaqtys[k].0 {
                let frac = match available.checked_div(w.iaqtys[k]) {
                    Some(v) => v,
                    None => return false,
                };
                if frac.0 < w.fills[c].0 {
                    w.fills.set(c, frac);
                }
            }
            w.coeffs.set(k, coeff);
            true
        },
        Pass::Values => {
            let q = match w.iaqtys[k].checked_mul(w.fills[c]) {
                Some(v) => v,
                None => return false,
            };
            let v = match q.checked_mul(prices[r]) {
                Some(v) => v,
                None => return false,
            };
            let t = match w.total.checked_add(v) {
                Some(t) => t,
                None => return false,
            };
            w.iaqtys.set(k, q);
            w.iavals.set(k, v);
            w.total = t;
            true
        },
    }
}

/// Walks the whole matrix with `pass`; `false` where the walk fails.
fn pass_exec(
    prices: &Vec<Amount>,
    liquid: &Vec<Amount>,
    matrix: &Vec<Amount>,
    collat: &Vec<Amount>,
    cols: usize,
    pass: Pass,
    w: &mut Work,
) -> (ok: bool)
    requires
        liquid@.len() == prices@.len(),
        matrix@.len() == prices@.len() * cols,
        shaped(old(w)@, prices@.len(), cols as nat),
    ensures
        ok == walk(
            SolveInputs { prices: prices@, liquid: liquid@, matrix: matrix@, collat: collat@ },
            cols as nat,
            pass,
            old(w)@,
            prices@.len(),
            0,
        ) is Some,
        ok ==> final(w)@ == walk(
            SolveInputs { prices: prices@, liquid: liquid@, matrix: matrix@, collat: collat@ },
            cols as nat,
            pass,
            old(w)@,
            prices@.len(),
            0,
        )->Some_0,
        shaped(final(w)@, prices@.len(), cols as nat),
{
    let ghost inp = SolveInputs { prices: prices@, liquid: liquid@, matrix: matrix@, collat: collat@ };
    let ghost init = w@;
    let rows = prices.len();
    let mlen = matrix.len();
    let mut r: usize = 0;
    let mut offset: usize = 0;
    while r < rows
        invariant
            rows == prices@.len(),
            mlen == matrix@.len(),
            mlen == rows * cols,
            liquid@.len() == rows,
            inp == (SolveInputs { prices: prices@, liquid: liquid@, matrix: matrix@, collat: collat@ }),
            r <= rows,
            offset == r * cols,
            shaped(w@, rows as nat, cols as nat),
            init == old(w)@,
            walk(inp, cols as nat, pass, init, r as nat, 0) == Some(w@),
        decreases rows - r,
    {
        proof {
            assert(offset + cols <= rows * cols) by (nonlinear_arith)
                requires
                    offset == r * cols,
                    r < rows,
            ;
        }
        let mut c: usize = 0;
        while c < cols
            invariant
                rows == prices@.len(),
                mlen == matrix@.len(),
                mlen == rows * cols,
                liquid@.len() == rows,
                inp == (SolveInputs { prices: prices@, liquid: liquid@, matrix: matrix@, collat: collat@ }),
                r < rows,
                c <= cols,
                offset == r * cols,
                offset + cols <= mlen,
                shaped(w@, rows as nat, cols as nat),
                init == old(w)@,
                walk(inp, cols as nat, pass, init, r as nat, c as nat) == Some(w@),
            decreases cols - c,
        {
            let ghost before = w@;
            let ok = cell_exec(prices, liquid, matrix, collat, cols, pass, w, r, c, offset + c);
            if !ok {
                proof {
                    assert(cell(inp, cols as nat, pass, before, r as int, c as int) is None);
                    assert(walk(inp, cols as nat, pass, init, r as nat, (c + 1) as nat) is None);
                    lemma_walk_failure_persists(inp, cols as nat, pass, init, r as nat, (c + 1) as nat, rows as nat, 0);
                    assert(init == old(w)@);
                }
                return false;
            }
            proof {
                lemma_cell_keeps_shape(inp, cols as nat, pass, before, r as int, c as int, rows as nat);
            }
            c = c + 1;
        }
        if pass == Pass::Fit && liquid[r].0 < w.assets[r].0 {
            w.assets.set(r, liquid[r]);
        }
        proof {
            assert((r + 1) * cols == r * cols + cols) by (nonlinear_arith);
        }
        r = r + 1;
        offset = offset + cols;
    }
    true
}


/// Each order's quantity: its collateral over its index price.
fn fitted_quotes_exec(collat: &Vec<Amount>, netavs: &Vec<Amount>) -> (r: Option<Vec<Amount>>)
    requires
        netavs@.len() == collat@.len(),
    ensures
        match r {
            Some(v) => fitted_quotes(collat@, netavs@) == Some(v@),
            None => fitted_quotes(collat@, netavs@) is None,
        },
{
    let n = collat.len();
    let mut out: Vec<Amount> = Vec::new();
    let mut c: usize = 0;
    while c < n
        invariant
            n == collat@.len(),
            netavs@.len() == n,
            c <= n,
            out@.len() == c,
            forall|k: int|
                0 <= k < c ==> (#[trigger] div_spec(collat@[k], netavs@[k])) is Some && out@[k]
                    == div_spec(collat@[k], netavs@[k])->Some_0,
        decreases n - c,
    {
        match collat[c].checked_div(netavs[c]) {
            Some(v) => out.push(v),
            None => return None,
        }
        c = c + 1;
    }
    assert(out@ =~= Seq::new(n as nat, |k: int| div_spec(collat@[k], netavs@[k])->Some_0));
    Some(out)
}

/// Each order's quantity reduced by its fill rate.
fn reduced_quotes_exec(quotes: &Vec<Amount>, fills: &Vec<Amount>) -> (r: Option<Vec<Amount>>)
    requires
        fills@.len() == quotes@.len(),
    ensures
        match r {
            Some(v) => reduced_quotes(quotes@, fills@) == Some(v@),
            None => reduced_quotes(quotes@, fills@) is None,
        },
{
    let n = quotes.len();
    let mut out: Vec<Amount> = Vec::new();
    let mut c: usize = 0;
    while c < n
        invariant
            n == quotes@.len(),
            fills@.len() == n,
            c <= n,
            out@.len() == c,
            forall|k: int|
                0 <= k < c ==> (#[trigger] mul_spec(quotes@[k], fills@[k])) is Some && out@[k]
                    == mul_spec(quotes@[k], fills@[k])->Some_0,
        decreases n - c,
    {
        match quotes[c].checked_mul(fills[c]) {
            Some(v) => out.push(v),
            None => return None,
        }
        c = c + 1;
    }
    assert(out@ =~= Seq::new(n as nat, |k: int| mul_spec(quotes@[k], fills@[k])->Some_0));
    Some(out)
}

/// Computes a strategy for a batch of index orders.
pub struct Solver {
    pub prices: Vector,
    pub liquid: Vector,
    pub matrix: Vector,
    pub collat: Vector,
    pub iaqtys: Vector,
    pub iavals: Vector,
    pub assets: Vector,
    pub coeffs: Vector,
    pub netavs: Vector,
    pub quotes: Vector,
}

impl Solver {
    pub open spec fn inputs(&self) -> SolveInputs {
        SolveInputs {
            prices: self.prices.data@,
            liquid: self.liquid.data@,
            matrix: self.matrix.data@,
            collat: self.collat.data@,
        }
    }

    /// The outputs as a solver state, with the given fill rates and total.
    pub open spec fn outputs(&self, fills: Seq<Amount>, total: Amount) -> SolveState {
        SolveState {
            netavs: self.netavs.data@,
            quotes: self.quotes.data@,
            iaqtys: self.iaqtys.data@,
            iavals: self.iavals.data@,
            assets: self.assets.data@,
            coeffs: self.coeffs.data@,
            fills,
            total,
        }
    }

    pub open spec fn wf(&self) -> bool {
        let rows = self.prices.data@.len();
        let cols = self.collat.data@.len();
        &&& self.liquid.data@.len() == rows
        &&& self.matrix.data@.len() == rows * cols
        &&& shaped(self.outputs(Seq::new(cols, |c: int| Amount(SCALE)), Amount(0)), rows, cols)
    }

    /// A solver with every output at zero.
    pub fn new(prices: Vector, liquid: Vector, matrix: Vector, collat: Vector) -> (r: Self)
        requires
            prices.data@.len() == liquid.data@.len(),
            prices.data@.len() * collat.data@.len() == matrix.data@.len(),
        ensures
            r.wf(),
            r.prices == prices,
            r.liquid == liquid,
            r.matrix == matrix,
            r.collat == collat,
            r.iaqtys.data@ == Seq::new(matrix.data@.len(), |i: int| Amount(0)),
            r.iavals.data@ == Seq::new(matrix.data@.len(), |i: int| Amount(0)),
            r.coeffs.data@ == Seq::new(matrix.data@.len(), |i: int| Amount(0)),
            r.assets.data@ == Seq::new(prices.data@.len(), |i: int| Amount(0)),
            r.netavs.data@ == Seq::new(collat.data@.len(), |i: int| Amount(0)),
            r.quotes.data@ == Seq::new(collat.data@.len(), |i: int| Amount(0)),
    {
        let m = matrix.data.len();
        let rows = prices.data.len();
        let cols = collat.data.len();
        let iaqtys = Vector { data: filled(m, Amount(0)) };
        let iavals = Vector { data: filled(m, Amount(0)) };
        let coeffs = Vector { data: filled(m, Amount(0)) };
        let assets = Vector { data: filled(rows, Amount(0)) };
        let netavs = Vector { data: filled(cols, Amount(0)) };
        let quotes = Vector { data: filled(cols, Amount(0)) };
        Solver { prices, liquid, matrix, collat, iaqtys, iavals, assets, coeffs, netavs, quotes }
    }

    /// Runs the strategy (see `solve_spec`) and returns the total value of
    /// the filled asset quantities; `None`, leaving the solver as it was,
    /// where an amount does not fit or a division fails.
    pub fn solve(&mut self) -> (r: Option<Amount>)
        requires
            old(self).wf(),
        ensures
            final(self).wf(),
            final(self).inputs() == old(self).inputs(),
            solve_spec(
                old(self).inputs(),
                old(self).outputs(Seq::new(old(self).collat.data@.len(), |c: int| Amount(SCALE)), Amount(0)),
            ) == match r {
                Some(total) => Some(final(self).outputs(solve_spec(
                    old(self).inputs(),
                    old(self).outputs(Seq::new(old(self).collat.data@.len(), |c: int| Amount(SCALE)), Amount(0)),
                )->Some_0.fills, total)),
                None => None::<SolveState>,
            },
            r is None ==> *final(self) == *old(self),
    {
        let cols = self.collat.data.len();
        let ghost inp = self.inputs();
        let mut w = Work {
            netavs: copy_amounts(&self.netavs.data),
            quotes: copy_amounts(&self.quotes.data),
            iaqtys: copy_amounts(&self.iaqtys.data),
            iavals: copy_amounts(&self.iavals.data),
            assets: copy_amounts(&self.assets.data),
            coeffs: copy_amounts(&self.coeffs.data),
            fills: filled(cols, Amount(SCALE)),
            total: Amount(0),
        };
        let ghost init = w@;
        assert(init == self.outputs(Seq::new(cols as nat, |c: int| Amount(SCALE)), Amount(0)));
        if !pass_exec(&self.prices.data, &self.liquid.data, &self.matrix.data, &self.collat.data, cols, Pass::Prices, &mut w) {
            return None;
        }
        let q = match fitted_quotes_exec(&self.collat.data, &w.netavs) {
            Some(q) => q,
            None => return None,
        };
        w.quotes = q;
        if !pass_exec(&self.prices.data, &self.liquid.data, &self.matrix.data, &self.collat.data, cols, Pass::Quantities, &mut w) {
            return None;
        }
        w.fills = filled(cols, Amount(SCALE));
        if !pass_exec(&self.prices.data, &self.liquid.data, &self.matrix.data, &self.collat.data, cols, Pass::Fit, &mut w) {
            return None;
        }
        let q2 = match reduced_quotes_exec(&w.quotes, &w.fills) {
            Some(q) => q,
            None => return None,
        };
        w.quotes = q2;
        w.total = Amount(0);
        if !pass_exec(&self.prices.data, &self.liquid.data, &self.matrix.data, &self.collat.data, cols, Pass::Values, &mut w) {
            return None;
        }
        let ghost fin = w@;
        self.netavs = Vector { data: w.netavs };
        self.quotes = Vector { data: w.quotes };
        self.iaqtys = Vector { data: w.iaqtys };
        self.iavals = Vector { data: w.iavals };
        self.assets = Vector { data: w.assets };
        self.coeffs = Vector { data: w.coeffs };
        assert(self.outputs(fin.fills, w.total) == fin);
        Some(w.total)
    }
}

} // verus!
