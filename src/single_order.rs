//! Asset quantities for a single index order.

use vstd::prelude::*;

use crate::amount::{mul_spec, Amount};
use crate::operand::copy_amounts;
use crate::quoter::filled;
use crate::vector::Vector;

verus! {

/// The quantity of an asset with weight `w` in an order for `quote`
/// indices: `w * quote`, and zero for a zero weight.
pub open spec fn asset_quantity(w: Amount, quote: Amount) -> Option<Amount> {
    if w.0 == 0 {
        Some(Amount(0))
    } else {
        mul_spec(w, quote)
    }
}

/// One index order: a column of asset weights and a fitted quantity.
pub struct SingleOrder {
    pub matrix: Vector,
    pub quotes: Vector,
    pub assets: Vector,
}

impl SingleOrder {
    /// An order with its asset quantities at zero.
    pub fn new(matrix: Vector, quotes: Vector) -> (r: Self)
        requires
            quotes.data@.len() == 1,
            matrix.data@.len() == quotes.data@.len(),
        ensures
            r.matrix == matrix,
            r.quotes == quotes,
            r.assets.data@ == Seq::new(matrix.data@.len(), |i: int| Amount(0)),
    {
        let n = matrix.data.len();
        SingleOrder { matrix, quotes, assets: Vector { data: filled(n, Amount(0)) } }
    }

    /// Sets each asset quantity to its weight times the fitted quantity and
    /// returns the fitted quantity; `None`, leaving the order as it was,
    /// where a quantity does not fit. Entries of `assets` past the matrix
    /// stay as they are.
    pub fn compute(&mut self) -> (r: Option<Amount>)
        requires
            old(self).quotes.data@.len() == 1,
            old(self).assets.data@.len() >= old(self).matrix.data@.len(),
        ensures
            final(self).matrix == old(self).matrix,
            final(self).quotes == old(self).quotes,
            r is Some <==> forall|i: int|
                0 <= i < old(self).matrix.data@.len() ==> (#[trigger] asset_quantity(
                    old(self).matrix.data@[i],
                    old(self).quotes.data@[0],
                )) is Some,
            r is Some ==> r == Some(old(self).quotes.data@[0]) && final(self).assets.data@ == Seq::new(
                old(self).assets.data@.len(),
                |i: int|
                    if i < old(self).matrix.data@.len() {
                        asset_quantity(old(self).matrix.data@[i], old(self).quotes.data@[0])->Some_0
                    } else {
                        old(self).assets.data@[i]
                    },
            ),
            r is None ==> final(self).assets == old(self).assets,
    {
        let quote = self.quotes.data[0];
        let n = self.matrix.data.len();
        let mut out: Vec<Amount> = copy_amounts(&self.assets.data);
        let mut row: usize = 0;
        while row < n
            invariant
                n == self.matrix.data@.len(),
                self == old(self),
                quote == self.quotes.data@[0],
                row <= n,
                out@.len() == self.assets.data@.len(),
                n <= out@.len(),
                forall|i: int|
                    0 <= i < row ==> (#[trigger] asset_quantity(self.matrix.data@[i], quote)) is Some
                        && out@[i] == asset_quantity(self.matrix.data@[i], quote)->Some_0,
                forall|i: int| row <= i < out@.len() ==> out@[i] == self.assets.data@[i],
            decreases n - row,
        {
            let w = self.matrix.data[row];
            if w.0 == 0 {
                out.set(row, Amount(0));
            } else {
                match w.checked_mul(quote) {
                    Some(v) => out.set(row, v),
                    None => {
                        assert(asset_quantity(self.matrix.data@[row as int], quote) is None);
                        return None;
                    },
                }
            }
            row = row + 1;
        }
        assert(out@ =~= Seq::new(
            self.assets.data@.len(),
            |i: int|
                if i < n {
                    asset_quantity(self.matrix.data@[i], quote)->Some_0
                } else {
                    self.assets.data@[i]
                },
        ));
        self.assets = Vector { data: out };
        Some(quote)
    }
}

} // verus!
