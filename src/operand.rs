//! Operands: the values that the stack and the registers hold.

use vstd::prelude::*;

use crate::amount::Amount;
use crate::labels::Labels;
use crate::vector::Vector;

verus! {

/// An operand: an empty register slot, a label sequence, a vector, a single
/// scalar or a single label.
pub enum Operand {
    Empty,
    Labels(Labels),
    Vector(Vector),
    Scalar(Amount),
    Label(u128),
}

/// The mathematical value of an operand.
pub enum Value {
    Empty,
    Labels(Seq<u128>),
    Vector(Seq<Amount>),
    Scalar(Amount),
    Label(u128),
}

impl View for Operand {
    type V = Value;

    open spec fn view(&self) -> Value {
        match self {
            Operand::Empty => Value::Empty,
            Operand::Labels(l) => Value::Labels(l.data@),
            Operand::Vector(v) => Value::Vector(v.data@),
            Operand::Scalar(x) => Value::Scalar(*x),
            Operand::Label(x) => Value::Label(*x),
        }
    }
}

/// The values of a sequence of operands.
pub open spec fn values_of(s: Seq<Operand>) -> Seq<Value> {
    s.map_values(|o: Operand| o@)
}

/// A copy of `s`.
pub fn copy_words(s: &Vec<u128>) -> (r: Vec<u128>)
    ensures
        r@ == s@,
{
    let mut out: Vec<u128> = Vec::new();
    let mut i: usize = 0;
    while i < s.len()
        invariant
            i <= s@.len(),
            out@ =~= s@.take(i as int),
        decreases s@.len() - i,
    {
        out.push(s[i]);
        i = i + 1;
    }
    assert(s@.take(s@.len() as int) =~= s@);
    out
}

/// A copy of `s`.
pub fn copy_amounts(s: &Vec<Amount>) -> (r: Vec<Amount>)
    ensures
        r@ == s@,
{
    let mut out: Vec<Amount> = Vec::new();
    let mut i: usize = 0;
    while i < s.len()
        invariant
            i <= s@.len(),
            out@ =~= s@.take(i as int),
        decreases s@.len() - i,
    {
        out.push(s[i]);
        i = i + 1;
    }
    assert(s@.take(s@.len() as int) =~= s@);
    out
}

impl Operand {
    /// A deep copy.
    pub fn duplicate(&self) -> (r: Operand)
        ensures
            r@ == self@,
    {
        match self {
            Operand::Empty => Operand::Empty,
            Operand::Labels(l) => Operand::Labels(Labels { data: copy_words(&l.data) }),
            Operand::Vector(v) => Operand::Vector(Vector { data: copy_amounts(&v.data) }),
            Operand::Scalar(x) => Operand::Scalar(*x),
            Operand::Label(x) => Operand::Label(*x),
        }
    }
}

} // verus!
