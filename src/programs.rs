//! Code words of programs that drive index bookkeeping.

use vstd::prelude::*;

use crate::opcodes::OP_LDV;

verus! {

/// The program that updates an index quote (capacity, price, slope). It
/// has no instructions yet.
pub fn update_quote(
    _index_asset_names_id: u128,
    _weights_id: u128,
    _quote_id: u128,
    _inventory_asset_names_id: u128,
    _asset_prices_id: u128,
    _asset_slopes_id: u128,
    _asset_liquidity: u128,
    _delta_long_id: u128,
    _delta_short_id: u128,
) -> (r: Vec<u128>)
    ensures
        r@ == Seq::<u128>::empty(),
{
    Vec::new()
}

/// The program that updates market supply and delta. So far it only loads
/// the market's asset names.
pub fn update_supply(
    market_asset_names_id: u128,
    _supply_long_id: u128,
    _supply_short_id: u128,
    _demand_long_id: u128,
    _demand_short_id: u128,
    _delta_long_id: u128,
    _delta_short_id: u128,
) -> (r: Vec<u128>)
    ensures
        r@ == seq![OP_LDV, market_asset_names_id],
{
    let mut code: Vec<u128> = Vec::new();
    code.push(OP_LDV);
    code.push(market_asset_names_id);
    assert(code@ =~= seq![OP_LDV, market_asset_names_id]);
    code
}

} // verus!
