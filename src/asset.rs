//! The side tag carried in the two low bits of an asset label.

use vstd::prelude::*;

verus! {

pub const SIDE_LONG: u128 = 0b01;

pub const SIDE_SHORT: u128 = 0b10;

pub const SIDE_MASK: u128 = 0b11;

pub const SIDE_FLAT: u128 = 0b00;

/// The side bits of `asset`.
pub fn get_side(asset: u128) -> (r: u128)
    ensures
        r == asset % 4,
{
    let r = asset & SIDE_MASK;
    assert(asset & 3 == asset % 4) by (bit_vector);
    r
}

/// `asset` with its side bits cleared.
pub fn get_asset_id(asset: u128) -> (r: u128)
    ensures
        r == asset - asset % 4,
{
    let r = asset & !SIDE_MASK;
    assert(asset & !3u128 == asset - asset % 4) by (bit_vector);
    r
}

} // verus!
