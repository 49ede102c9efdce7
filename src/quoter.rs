//! Index quotes: price, capacity and aggregate slippage of index baskets.

use vstd::prelude::*;

use crate::amount::{add_spec, div_spec, min_spec, mul_spec, Amount};
use crate::operand::copy_amounts;
use crate::vector::Vector;

verus! {

/// The quote outputs while the matrix is being walked.
pub struct QuoteState {
    pub netavs: Seq<Amount>,
    pub ixslps: Seq<Amount>,
    pub quotes: Seq<Amount>,
    pub total: Amount,
}

/// The quoter's inputs: per-asset prices, liquidity and slopes, and the
/// row-major matrix of asset weights (assets in rows, indices in columns).
pub struct QuoteInputs {
    pub prices: Seq<Amount>,
    pub liquid: Seq<Amount>,
    pub matrix: Seq<Amount>,
    pub slopes: Seq<Amount>,
    pub cols: nat,
}

/// The weight of asset `r` in index `c`.
pub open spec fn weight(q: QuoteInputs, r: int, c: int) -> Amount {
    q.matrix[r * q.cols + c]
}

/// Folds asset `r`'s part of index `c` into the outputs: its value
/// `price * w` into the index price and the total, its slippage
/// `slope * w^2` into the index slope, and its capacity `liquidity / w`
/// into the index capacity (a minimum). A zero weight contributes nothing.
pub open spec fn quote_step(q: QuoteInputs, s: QuoteState, r: int, c: int) -> Option<QuoteState> {
    let w = weight(q, r, c);
    if w.0 == 0 {
        Some(s)
    } else {
        match (
            mul_spec(q.prices[r], w),
            mul_spec(w, w),
            div_spec(q.liquid[r], w),
        ) {
            (Some(value), Some(w_sq), Some(limit)) => match mul_spec(q.slopes[r], w_sq) {
                Some(slip) => match (
                    add_spec(s.netavs[c], value),
                    add_spec(s.ixslps[c], slip),
                    add_spec(s.total, value),
                ) {
                    (Some(nav), Some(slope), Some(total)) => Some(
                        QuoteState {
                            netavs: s.netavs.update(c, nav),
                            ixslps: s.ixslps.update(c, slope),
                            quotes: s.quotes.update(c, min_spec(s.quotes[c], limit)),
                            total,
                        },
                    ),
                    _ => None,
                },
                None => None,
            },
            _ => None,
        }
    }
}

/// The outputs before entry `(r, c)` of the matrix is visited, the entries
/// being visited row by row.
pub open spec fn quote_before(q: QuoteInputs, init: QuoteState, r: nat, c: nat) -> Option<QuoteState>
    decreases r, c,
{
    if c == 0 {
        if r == 0 {
            Some(init)
        } else {
            quote_before(q, init, (r - 1) as nat, q.cols)
        }
    } else {
        match quote_before(q, init, r, (c - 1) as nat) {
            Some(s) => quote_step(q, s, r as int, c - 1),
            None => None,
        }
    }
}

/// Once a step fails, every later point of the walk has failed too.
pub proof fn lemma_quote_failure_persists(
    q: QuoteInputs,
    init: QuoteState,
    r: nat,
    c: nat,
    r2: nat,
    c2: nat,
)
    requires
        quote_before(q, init, r, c) is None,
        c <= q.cols,
        c2 <= q.cols,
        r < r2 || (r == r2 && c <= c2),
    ensures
        quote_before(q, init, r2, c2) is None,
    decreases r2, c2,
{
    if r2 == r && c2 == c {
    } else if c2 > 0 {
        lemma_quote_failure_persists(q, init, r, c, r2, (c2 - 1) as nat);
    } else {
        lemma_quote_failure_persists(q, init, r, c, (r2 - 1) as nat, q.cols);
    }
}

/// Prices, capacities and slopes of a batch of index baskets.
pub struct Quoter {
    pub prices: Vector,
    pub liquid: Vector,
    pub matrix: Vector,
    pub slopes: Vector,
    pub netavs: Vector,
    pub quotes: Vector,
    pub ixslps: Vector,
}

impl Quoter {
    pub open spec fn inputs(&self) -> QuoteInputs {
        QuoteInputs {
            prices: self.prices.data@,
            liquid: self.liquid.data@,
            matrix: self.matrix.data@,
            slopes: self.slopes.data@,
            cols: (self.matrix.data@.len() / self.prices.data@.len()) as nat,
        }
    }

    pub open spec fn outputs(&self, total: Amount) -> QuoteState {
        QuoteState {
            netavs: self.netavs.data@,
            ixslps: self.ixslps.data@,
            quotes: self.quotes.data@,
            total,
        }
    }

    /// The shape the outputs keep: one entry per index.
    pub open spec fn wf(&self) -> bool {
        let rows = self.prices.data@.len();
        let cols = self.inputs().cols;
        &&& rows > 0
        &&& self.liquid.data@.len() == rows
        &&& self.slopes.data@.len() == rows
        &&& self.matrix.data@.len() == rows * cols
        &&& cols > 0
        &&& self.netavs.data@.len() == cols
        &&& self.ixslps.data@.len() == cols
        &&& self.quotes.data@.len() == cols
    }

    /// A quoter for `matrix.len() / prices.len()` indices, with prices and
    /// slopes at zero and capacities at the largest amount.
    pub fn new(prices: Vector, liquid: Vector, matrix: Vector, slopes: Vector) -> (r: Self)
        requires
            prices.data@.len() > 0,
            liquid.data@.len() == prices.data@.len(),
            slopes.data@.len() == prices.data@.len(),
            matrix.data@.len() % prices.data@.len() == 0,
            matrix.data@.len() / prices.data@.len() > 0,
        ensures
            r.wf(),
            r.prices == prices,
            r.liquid == liquid,
            r.matrix == matrix,
            r.slopes == slopes,
            r.netavs.data@ == Seq::new(r.inputs().cols, |i: int| Amount(0)),
            r.ixslps.data@ == Seq::new(r.inputs().cols, |i: int| Amount(0)),
            r.quotes.data@ == Seq::new(r.inputs().cols, |i: int| Amount(u128::MAX)),
    {
        let num_assets = prices.data.len();
        let num_orders = matrix.data.len() / num_assets;
        proof {
            vstd::arithmetic::div_mod::lemma_fundamental_div_mod(
                matrix.data@.len() as int,
                num_assets as int,
            );
            assert(matrix.data@.len() == num_assets * num_orders);
        }
        let netavs = Vector { data: filled(num_orders, Amount(0)) };
        let quotes = Vector { data: filled(num_orders, Amount(u128::MAX)) };
        let ixslps = Vector { data: filled(num_orders, Amount(0)) };
        let r = Quoter { prices, liquid, matrix, slopes, netavs, quotes, ixslps };
        assert(r.inputs().cols == num_orders);
        r
    }

    /// Walks the weight matrix row by row and folds every asset's part into
    /// the index prices (`netavs`), slopes (`ixslps`) and capacities
    /// (`quotes`). Returns the total value, or `None`, leaving the quoter as
    /// it was, where an amount does not fit or a division fails.
    pub fn quote(&mut self) -> (r: Option<Amount>)
        requires
            old(self).wf(),
        ensures
            final(self).wf(),
            final(self).inputs() == old(self).inputs(),
            quote_before(
                old(self).inputs(),
                old(self).outputs(Amount(0)),
                old(self).prices.data@.len(),
                0,
            ) == match r {
                Some(total) => Some(final(self).outputs(total)),
                None => None::<QuoteState>,
            },
            r is None ==> *final(self) == *old(self),
    {
        let rows = self.prices.data.len();
        let mlen = self.matrix.data.len();
        let cols = mlen / rows;
        let ghost q = self.inputs();
        let ghost init = self.outputs(Amount(0));
        let mut netavs = copy_amounts(&self.netavs.data);
        let mut ixslps = copy_amounts(&self.ixslps.data);
        let mut quotes = copy_amounts(&self.quotes.data);
        let mut total = Amount(0);
        let mut row: usize = 0;
        let mut row_offset: usize = 0;
        while row < rows
            invariant
                self == old(self),
                self.wf(),
                rows == self.prices.data@.len(),
                mlen == rows * cols,
                q == self.inputs(),
                q.cols == cols,
                init == self.outputs(Amount(0)),
                row <= rows,
                row_offset == row * cols,
                netavs@.len() == cols,
                ixslps@.len() == cols,
                quotes@.len() == cols,
                quote_before(q, init, row as nat, 0) == Some(
                    QuoteState { netavs: netavs@, ixslps: ixslps@, quotes: quotes@, total },
                ),
            decreases rows - row,
        {
            let price = self.prices.data[row];
            let liquidity = self.liquid.data[row];
            let slope = self.slopes.data[row];
            let mut col: usize = 0;
            proof {
                assert(row_offset + cols <= rows * cols) by (nonlinear_arith)
                    requires
                        row_offset == row * cols,
                        row < rows,
                ;
            }
            while col < cols
                invariant
                    self == old(self),
                    self.wf(),
                    rows == self.prices.data@.len(),
                    mlen == rows * cols,
                    q == self.inputs(),
                    q.cols == cols,
                    init == self.outputs(Amount(0)),
                    row < rows,
                    col <= cols,
                    row_offset == row * cols,
                    row_offset + cols <= rows * cols,
                    price == q.prices[row as int],
                    liquidity == q.liquid[row as int],
                    slope == q.slopes[row as int],
                    netavs@.len() == cols,
                    ixslps@.len() == cols,
                    quotes@.len() == cols,
                    quote_before(q, init, row as nat, col as nat) == Some(
                        QuoteState { netavs: netavs@, ixslps: ixslps@, quotes: quotes@, total },
                    ),
                decreases cols - col,
            {
                let w = self.matrix.data[row_offset + col];
                let ghost before = QuoteState { netavs: netavs@, ixslps: ixslps@, quotes: quotes@, total };
                assert(w == weight(q, row as int, col as int));
                proof {
                    if quote_step(q, before, row as int, col as int) is None {
                        lemma_quote_failure_persists(q, init, row as nat, (col + 1) as nat, rows as nat, 0);
                    }
                }
                if w.0 != 0 {
                    let value = match price.checked_mul(w) {
                        Some(v) => v,
                        None => return None,
                    };
                    let w_sq = match w.checked_mul(w) {
                        Some(v) => v,
                        None => return None,
                    };
                    let limit = match liquidity.checked_div(w) {
                        Some(v) => v,
                        None => return None,
                    };
                    let slip = match slope.checked_mul(w_sq) {
                        Some(v) => v,
                        None => return None,
                    };
                    let nav = match netavs[col].checked_add(value) {
                        Some(v) => v,
                        None => return None,
                    };
                    let ixs = match ixslps[col].checked_add(slip) {
                        Some(v) => v,
                        None => return None,
                    };
                    let t = match total.checked_add(value) {
                        Some(v) => v,
                        None => return None,
                    };
                    let m = quotes[col].min(limit);
                    netavs.set(col, nav);
                    ixslps.set(col, ixs);
                    quotes.set(col, m);
                    total = t;
                }
                proof {
                    assert(quote_before(q, init, row as nat, (col + 1) as nat) == quote_step(
                        q,
                        before,
                        row as int,
                        col as int,
                    ));
                }
                col = col + 1;
            }
            proof {
                assert(quote_before(q, init, (row + 1) as nat, 0) == quote_before(q, init, row as nat, cols as nat));
                assert((row + 1) * cols == row * cols + cols) by (nonlinear_arith);
            }
            row = row + 1;
            row_offset = row_offset + cols;
        }
        self.netavs = Vector { data: netavs };
        self.ixslps = Vector { data: ixslps };
        self.quotes = Vector { data: quotes };
        Some(total)
    }
}

/// `n` copies of `x`.
pub fn filled(n: usize, x: Amount) -> (r: Vec<Amount>)
    ensures
        r@ == Seq::new(n as nat, |i: int| x),
{
    let mut out: Vec<Amount> = Vec::new();
    let mut i: usize = 0;
    while i < n
        invariant
            i <= n,
            out@ =~= Seq::new(i as nat, |k: int| x),
        decreases n - i,
    {
        out.push(x);
        i = i + 1;
    }
    out
}

} // verus!
