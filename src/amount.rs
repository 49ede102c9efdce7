//! Unsigned fixed-point numbers with eighteen decimals.

use alloy_primitives::ruint::UintTryTo;
use alloy_primitives::U256;
use vstd::prelude::*;

use crate::codec::{le_bytes, le_value, read_u128, write_u128};

verus! {

/// The implicit scale of every `Amount`: `10^18`.
pub const SCALE: u128 = 1_000_000_000_000_000_000;

/// `10^n`.
pub open spec fn pow10(n: nat) -> nat
    decreases n,
{
    if n == 0 {
        1
    } else {
        10 * pow10((n - 1) as nat)
    }
}

/// `floor(a * b / d)`.
pub open spec fn mul_div_spec(a: nat, b: nat, d: nat) -> nat {
    (a * b) / d
}

/// Whether `r` is the integer square root of `x`.
pub open spec fn is_isqrt(r: nat, x: nat) -> bool {
    r * r <= x < (r + 1) * (r + 1)
}

/// The integer square root of `x`.
pub open spec fn isqrt(x: nat) -> nat {
    choose|r: nat| is_isqrt(r, x)
}

/// Relies on alloy_primitives::U256 (ruint's `Uint<256, 4>`): the product of
/// two 128-bit values is exact in 256 bits, `/` floors and panics only on a
/// zero divisor, and `uint_try_to` fails exactly when the value exceeds `u128`.
#[verifier::external_body]
fn mul_div(a: u128, b: u128, d: u128) -> (r: Option<u128>)
    requires
        d != 0,
    ensures
        r == (if mul_div_spec(a as nat, b as nat, d as nat) <= u128::MAX {
            Some(mul_div_spec(a as nat, b as nat, d as nat) as u128)
        } else {
            None::<u128>
        }),
{
    (U256::from(a) * U256::from(b) / U256::from(d)).uint_try_to().ok()
}

/// Relies on alloy_primitives::U256 (ruint's `Uint<256, 4>`): the product of
/// two 128-bit values is exact in 256 bits, and `root(2)` is the floor of its
/// square root, which is below 2^128 and so converts to `u128` with `to`.
#[verifier::external_body]
fn mul_isqrt(a: u128, b: u128) -> (r: u128)
    ensures
        is_isqrt(r as nat, (a as nat) * (b as nat)),
{
    (U256::from(a) * U256::from(b)).root(2).to::<u128>()
}

pub proof fn lemma_isqrt_unique(r: nat, q: nat, x: nat)
    requires
        is_isqrt(r, x),
        is_isqrt(q, x),
    ensures
        r == q,
{
    if r < q {
        assert((r + 1) * (r + 1) <= q * q) by (nonlinear_arith)
            requires
                r + 1 <= q,
        ;
    } else if q < r {
        assert((q + 1) * (q + 1) <= r * r) by (nonlinear_arith)
            requires
                q + 1 <= r,
        ;
    }
}

pub proof fn lemma_isqrt_of(r: nat, x: nat)
    requires
        is_isqrt(r, x),
    ensures
        isqrt(x) == r,
{
    let q = isqrt(x);
    assert(is_isqrt(q, x));
    lemma_isqrt_unique(r, q, x);
}

/// A fixed-point quantity: the raw value `v` stands for `v / 10^18`.
#[derive(Clone, Copy, PartialEq, Eq, Structural, PartialOrd, Ord, Debug)]
pub struct Amount(pub u128);

/// `a + b`, when it fits.
pub open spec fn add_spec(a: Amount, b: Amount) -> Option<Amount> {
    if a.0 + b.0 <= u128::MAX {
        Some(Amount((a.0 + b.0) as u128))
    } else {
        None
    }
}

/// `a - b`, when `a >= b`.
pub open spec fn sub_spec(a: Amount, b: Amount) -> Option<Amount> {
    if a.0 >= b.0 {
        Some(Amount((a.0 - b.0) as u128))
    } else {
        None
    }
}

/// `max(a - b, 0)`.
pub open spec fn ssb_spec(a: Amount, b: Amount) -> Amount {
    if a.0 >= b.0 {
        Amount((a.0 - b.0) as u128)
    } else {
        Amount(0)
    }
}

/// The fixed-point product `a * b / 10^18`, when it fits.
pub open spec fn mul_spec(a: Amount, b: Amount) -> Option<Amount> {
    let q = mul_div_spec(a.0 as nat, b.0 as nat, SCALE as nat);
    if q <= u128::MAX {
        Some(Amount(q as u128))
    } else {
        None
    }
}

/// The fixed-point quotient `a * 10^18 / b`, when `b` is not zero and it fits.
pub open spec fn div_spec(a: Amount, b: Amount) -> Option<Amount> {
    if b.0 == 0 {
        None
    } else {
        let q = mul_div_spec(a.0 as nat, SCALE as nat, b.0 as nat);
        if q <= u128::MAX {
            Some(Amount(q as u128))
        } else {
            None
        }
    }
}

/// The fixed-point square root: the integer square root of `a * 10^18`,
/// so that `sqrt(x)` stands for the square root of `x`, floored to eighteen
/// decimals.
pub open spec fn sqrt_spec(a: Amount) -> Amount {
    Amount(isqrt((a.0 as nat) * (SCALE as nat)) as u128)
}

pub open spec fn min_spec(a: Amount, b: Amount) -> Amount {
    if a.0 <= b.0 {
        a
    } else {
        b
    }
}

pub open spec fn max_spec(a: Amount, b: Amount) -> Amount {
    if a.0 >= b.0 {
        a
    } else {
        b
    }
}

/// The amount that the decimal literal `value / 10^scale` stands for, floored.
pub open spec fn with_scale_spec(value: nat, scale: nat) -> nat {
    mul_div_spec(value, SCALE as nat, pow10(scale))
}

/// Computes `10^n`.
fn pow10_exec(n: u8) -> (r: u128)
    requires
        n <= 38,
    ensures
        r as nat == pow10(n as nat),
{
    let mut r: u128 = 1;
    let mut i: u8 = 0;
    proof {
        lemma_pow10_mono(0, 38);
    }
    while i < n
        invariant
            i <= n <= 38,
            r as nat == pow10(i as nat),
            pow10(i as nat) <= pow10(38),
        decreases n - i,
    {
        proof {
            lemma_pow10_mono((i + 1) as nat, 38);
            lemma_pow10_38();
        }
        r = r * 10;
        i = i + 1;
        proof {
            lemma_pow10_mono(i as nat, 38);
        }
    }
    r
}

pub proof fn lemma_pow10_mono(m: nat, n: nat)
    requires
        m <= n,
    ensures
        pow10(m) <= pow10(n),
    decreases n,
{
    if m < n {
        lemma_pow10_mono(m, (n - 1) as nat);
    }
}

pub proof fn lemma_pow10_positive(n: nat)
    ensures
        pow10(n) >= 1,
    decreases n,
{
    if n > 0 {
        lemma_pow10_positive((n - 1) as nat);
    }
}

pub proof fn lemma_pow10_split(m: nat, n: nat)
    ensures
        pow10(m + n) == pow10(m) * pow10(n),
    decreases m,
{
    if m > 0 {
        let k = (m - 1) as nat;
        lemma_pow10_split(k, n);
        assert((m + n) as nat == (k + n + 1) as nat);
        assert(pow10(k + n + 1) == 10 * pow10(k + n));
        assert(pow10(m) == 10 * pow10(k));
        vstd::arithmetic::mul::lemma_mul_is_associative(10, pow10(k) as int, pow10(n) as int);
        assert(pow10(m + n) == pow10(k + n + 1));
    } else {
        assert(pow10(0) == 1);
        assert(m + n == n);
    }
}

pub proof fn lemma_pow10_39()
    ensures
        pow10(39) > u128::MAX,
{
    reveal_with_fuel(pow10, 40);
}

pub proof fn lemma_pow10_38()
    ensures
        pow10(38) == 100_000_000_000_000_000_000_000_000_000_000_000_000,
{
    reveal_with_fuel(pow10, 39);
}

pub proof fn lemma_scale_is_pow10()
    ensures
        SCALE as nat == pow10(18),
{
    reveal_with_fuel(pow10, 19);
}

impl Amount {
    /// Zero.
    pub fn zero() -> (r: Self)
        ensures
            r.0 == 0,
    {
        Amount(0)
    }

    /// One, i.e. the raw value `10^18`.
    pub fn one() -> (r: Self)
        ensures
            r.0 == SCALE,
    {
        Amount(SCALE)
    }

    /// Two.
    pub fn two() -> (r: Self)
        ensures
            r.0 == 2 * SCALE,
    {
        Amount(2 * SCALE)
    }

    /// Four.
    pub fn four() -> (r: Self)
        ensures
            r.0 == 4 * SCALE,
    {
        Amount(4 * SCALE)
    }

    /// The largest amount.
    pub fn max_value() -> (r: Self)
        ensures
            r.0 == u128::MAX,
    {
        Amount(u128::MAX)
    }

    pub const SCALE: u128 = 1_000_000_000_000_000_000;

    pub const DECIMALS: usize = 18;

    /// `self + rhs`; `None` exactly when the sum does not fit in 128 bits.
    pub fn checked_add(self, rhs: Self) -> (r: Option<Self>)
        ensures
            r == add_spec(self, rhs),
            r is Some <==> self.0 + rhs.0 < 0x1_0000_0000_0000_0000_0000_0000_0000_0000,
    {
        match self.0.checked_add(rhs.0) {
            Some(v) => Some(Amount(v)),
            None => None,
        }
    }

    /// `self - rhs`; `None` exactly when `rhs > self`.
    pub fn checked_sub(self, rhs: Self) -> (r: Option<Self>)
        ensures
            r == sub_spec(self, rhs),
            r is Some <==> self.0 >= rhs.0,
    {
        match self.0.checked_sub(rhs.0) {
            Some(v) => Some(Amount(v)),
            None => None,
        }
    }

    /// `max(self - rhs, 0)`.
    pub fn saturating_sub(self, rhs: Self) -> (r: Self)
        ensures
            r == ssb_spec(self, rhs),
    {
        if self.0 >= rhs.0 {
            Amount(self.0 - rhs.0)
        } else {
            Amount(0)
        }
    }

    /// The fixed-point product; `None` exactly when `self * rhs / 10^18`
    /// does not fit in 128 bits.
    pub fn checked_mul(self, rhs: Self) -> (r: Option<Self>)
        ensures
            r == mul_spec(self, rhs),
            r is Some <==> (self.0 as nat) * (rhs.0 as nat) / (SCALE as nat) <= u128::MAX,
    {
        match mul_div(self.0, rhs.0, SCALE) {
            Some(v) => Some(Amount(v)),
            None => None,
        }
    }

    /// The fixed-point quotient; `None` exactly when `rhs` is zero or
    /// `self * 10^18 / rhs` does not fit in 128 bits.
    pub fn checked_div(self, rhs: Self) -> (r: Option<Self>)
        ensures
            r == div_spec(self, rhs),
            r is Some <==> rhs.0 != 0 && (self.0 as nat) * (SCALE as nat) / (rhs.0 as nat) <= u128::MAX,
    {
        if rhs.0 == 0 {
            return None;
        }
        match mul_div(self.0, SCALE, rhs.0) {
            Some(v) => Some(Amount(v)),
            None => None,
        }
    }

    /// The fixed-point square root, `isqrt(self * 10^18)`, computed in
    /// 256 bits. It always fits: the root is below `2^94`.
    pub fn checked_sqrt(self) -> (r: Option<Self>)
        ensures
            r == Some(sqrt_spec(self)),
            r is Some,
    {
        let v = mul_isqrt(self.0, SCALE);
        proof {
            lemma_isqrt_of(v as nat, (self.0 as nat) * (SCALE as nat));
        }
        Some(Amount(v))
    }

    pub fn is_less_than(&self, other: &Self) -> (r: bool)
        ensures
            r == (self.0 < other.0),
    {
        self.0 < other.0
    }

    /// The smaller of the two.
    pub fn min(self, other: Self) -> (r: Self)
        ensures
            r == min_spec(self, other),
    {
        if self.0 <= other.0 {
            self
        } else {
            other
        }
    }

    /// The larger of the two.
    pub fn max(self, other: Self) -> (r: Self)
        ensures
            r == max_spec(self, other),
    {
        if self.0 >= other.0 {
            self
        } else {
            other
        }
    }

    /// The amount written `value` with `scale` decimals, e.g. `(150, 2)`
    /// for `1.50`; digits beyond eighteen decimals are dropped.
    pub fn from_u128_with_scale(value: u128, scale: u8) -> (r: Self)
        requires
            scale <= 77,
            with_scale_spec(value as nat, scale as nat) <= u128::MAX,
        ensures
            r.0 as nat == with_scale_spec(value as nat, scale as nat),
    {
        if scale <= 38 {
            let p = pow10_exec(scale);
            proof {
                lemma_pow10_positive(scale as nat);
            }
            match mul_div(value, SCALE, p) {
                Some(v) => Amount(v),
                None => Amount(0),
            }
        } else if scale <= 56 {
            let p = pow10_exec(scale - 18);
            proof {
                let k = (scale - 18) as nat;
                lemma_pow10_positive(k);
                lemma_scale_is_pow10();
                lemma_pow10_split(18, k);
                assert(pow10(scale as nat) == SCALE as nat * pow10(k));
                let x = (value as nat) * (SCALE as nat);
                vstd::arithmetic::div_mod::lemma_div_by_multiple(value as int, SCALE as int);
                vstd::arithmetic::div_mod::lemma_div_denominator(x as int, SCALE as int, pow10(k) as int);
                assert(mul_div_spec(value as nat, 1, pow10(k)) == value as nat / pow10(k));
            }
            match mul_div(value, 1, p) {
                Some(v) => Amount(v),
                None => Amount(0),
            }
        } else {
            proof {
                let k = (scale - 57) as nat;
                lemma_scale_is_pow10();
                lemma_pow10_39();
                lemma_pow10_split(57, k);
                lemma_pow10_split(39, 18);
                lemma_pow10_positive(k);
                let x = (value as nat) * (SCALE as nat);
                assert(x < pow10(57)) by (nonlinear_arith)
                    requires
                        x == (value as nat) * (SCALE as nat),
                        value < pow10(39),
                        pow10(57) == pow10(39) * pow10(18),
                        SCALE as nat == pow10(18),
                ;
                assert(pow10(57) <= pow10(scale as nat)) by (nonlinear_arith)
                    requires
                        pow10(scale as nat) == pow10(57) * pow10(k),
                        pow10(k) >= 1,
                ;
                assert(x / pow10(scale as nat) == 0) by (nonlinear_arith)
                    requires
                        x < pow10(scale as nat),
                ;
            }
            Amount(0)
        }
    }

    /// The raw value scaled down to `scale` decimals, floored:
    /// `self * 10^scale / 10^18`.
    pub fn to_u128_with_scale(&self, scale: u8) -> (r: u128)
        requires
            scale <= 38,
            mul_div_spec(self.0 as nat, pow10(scale as nat), SCALE as nat) <= u128::MAX,
        ensures
            r as nat == mul_div_spec(self.0 as nat, pow10(scale as nat), SCALE as nat),
    {
        let p = pow10_exec(scale);
        match mul_div(self.0, p, SCALE) {
            Some(v) => v,
            None => 0,
        }
    }

    /// Reads the 16-byte little-endian form.
    pub fn from_slice(slice: &[u8]) -> (r: Self)
        requires
            slice@.len() == 16,
        ensures
            r.0 as nat == le_value(slice@),
    {
        Amount(read_u128(slice))
    }

    /// Appends the 16-byte little-endian form to `output`.
    pub fn to_vec(&self, output: &mut Vec<u8>)
        ensures
            final(output)@ == old(output)@ + le_bytes(self.0 as nat, 16),
    {
        write_u128(self.0, output);
    }

    pub fn from_u128_raw(value: u128) -> (r: Self)
        ensures
            r.0 == value,
    {
        Amount(value)
    }

    pub fn to_u128_raw(&self) -> (r: u128)
        ensures
            r == self.0,
    {
        self.0
    }
}

} // verus!

verus! {

/// Writing `value` with `scale <= 18` decimals and reading it back at the
/// same scale gives `value`, whenever the amount fits.
pub proof fn law_scale_round_trip(value: nat, scale: nat)
    requires
        scale <= 18,
        with_scale_spec(value, scale) <= u128::MAX,
    ensures
        mul_div_spec(with_scale_spec(value, scale), pow10(scale), SCALE as nat) == value,
{
    let k = (18 - scale) as nat;
    lemma_scale_is_pow10();
    lemma_pow10_split(k, scale);
    assert(k + scale == 18);
    lemma_pow10_positive(scale);
    lemma_pow10_positive(k);
    let pk = pow10(k);
    let ps = pow10(scale);
    assert(SCALE as nat == pk * ps);
    assert(value * (pk * ps) == (value * pk) * ps) by (nonlinear_arith);
    vstd::arithmetic::div_mod::lemma_div_by_multiple((value * pk) as int, ps as int);
    assert(with_scale_spec(value, scale) == value * pk);
    vstd::arithmetic::div_mod::lemma_div_by_multiple(value as int, (pk * ps) as int);
    assert((value * pk) * ps == value * (pk * ps)) by (nonlinear_arith);
}

/// Reading the 16-byte form of an amount gives the amount back.
pub proof fn law_amount_bytes_round_trip(a: Amount)
    ensures
        le_bytes(a.0 as nat, 16).len() == 16,
        le_value(le_bytes(a.0 as nat, 16)) == a.0,
{
    crate::codec::lemma_le_bytes_len(a.0 as nat, 16);
    crate::codec::lemma_pow256_16();
    crate::codec::lemma_value_of_bytes(a.0 as nat, 16);
}

} // verus!
