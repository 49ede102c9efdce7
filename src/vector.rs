//! Dense vectors of amounts.

use vstd::prelude::*;

use crate::amount::Amount;
use crate::codec::{
    decode_words, encode_words, lemma_decode_encode_words, lemma_encode_words_shape, read_u128_at,
    write_u128,
};

verus! {

/// An ordered sequence of amounts.
pub struct Vector {
    pub data: Vec<Amount>,
}

/// The raw values of a sequence of amounts.
pub open spec fn raw_values(s: Seq<Amount>) -> Seq<u128> {
    s.map_values(|a: Amount| a.0)
}

/// The amounts whose raw values are `s`.
pub open spec fn amounts_of(s: Seq<u128>) -> Seq<Amount> {
    s.map_values(|w: u128| Amount(w))
}

impl Vector {
    pub fn new() -> (r: Self)
        ensures
            r.data@ == Seq::<Amount>::empty(),
    {
        Vector { data: Vec::new() }
    }

    /// Reads the byte form: 16 little-endian bytes per amount.
    pub fn from_vec(data: Vec<u8>) -> (r: Self)
        requires
            data@.len() % 16 == 0,
        ensures
            r.data@ == amounts_of(decode_words(data@)),
    {
        let len = data.len();
        let n = len / 16;
        let mut out: Vec<Amount> = Vec::new();
        let mut k: usize = 0;
        while k < n
            invariant
                n == data@.len() / 16,
                len == data@.len(),
                data@.len() % 16 == 0,
                k <= n,
                out@ =~= amounts_of(decode_words(data@)).take(k as int),
            decreases n - k,
        {
            proof {
                assert(16 * k + 16 <= data@.len()) by (nonlinear_arith)
                    requires
                        k < n,
                        n == data@.len() / 16,
                ;
            }
            let w = read_u128_at(data.as_slice(), 16 * k);
            out.push(Amount(w));
            k = k + 1;
        }
        assert(amounts_of(decode_words(data@)).take(n as int) =~= amounts_of(decode_words(data@)));
        Vector { data: out }
    }

    /// The byte form: 16 little-endian bytes per amount.
    pub fn to_vec(&self) -> (r: Vec<u8>)
        ensures
            r@ == encode_words(raw_values(self.data@)),
    {
        let mut out: Vec<u8> = Vec::new();
        let mut k: usize = 0;
        while k < self.data.len()
            invariant
                k <= self.data@.len(),
                out@ == encode_words(raw_values(self.data@).take(k as int)),
            decreases self.data@.len() - k,
        {
            write_u128(self.data[k].0, &mut out);
            proof {
                let t = raw_values(self.data@).take(k + 1);
                assert(t.drop_last() =~= raw_values(self.data@).take(k as int));
            }
            k = k + 1;
        }
        assert(raw_values(self.data@).take(self.data@.len() as int) =~= raw_values(self.data@));
        out
    }
}

/// Reading the byte form of a sequence of amounts gives the sequence back.
pub proof fn law_vector_bytes_round_trip(data: Seq<Amount>)
    ensures
        encode_words(raw_values(data)).len() % 16 == 0,
        amounts_of(decode_words(encode_words(raw_values(data)))) == data,
{
    lemma_encode_words_shape(raw_values(data));
    lemma_decode_encode_words(raw_values(data));
    assert(amounts_of(raw_values(data)) =~= data);
}

} // verus!
