//! Ordered sequences of 128-bit labels.

use vstd::prelude::*;

use crate::codec::{decode_words, encode_words, lemma_decode_encode_words, read_words, write_words};

verus! {

/// An ordered sequence of 128-bit tags.
pub struct Labels {
    pub data: Vec<u128>,
}

/// Whether `s` is strictly ascending.
pub open spec fn strictly_ascending(s: Seq<u128>) -> bool {
    forall|i: int, j: int| 0 <= i < j < s.len() ==> s[i] < s[j]
}

impl Labels {
    pub fn new() -> (r: Self)
        ensures
            r.data@ == Seq::<u128>::empty(),
    {
        Labels { data: Vec::new() }
    }

    /// Reads the byte form: 16 little-endian bytes per label.
    pub fn from_vec(data: Vec<u8>) -> (r: Self)
        requires
            data@.len() % 16 == 0,
        ensures
            r.data@ == decode_words(data@),
    {
        Labels { data: read_words(data.as_slice()) }
    }

    /// The byte form: 16 little-endian bytes per label.
    pub fn to_vec(&self) -> (r: Vec<u8>)
        ensures
            r@ == encode_words(self.data@),
    {
        write_words(self.data.as_slice())
    }
}

/// Reading the byte form of a label sequence gives the sequence back.
pub proof fn law_labels_bytes_round_trip(data: Seq<u128>)
    ensures
        encode_words(data).len() % 16 == 0,
        decode_words(encode_words(data)) == data,
{
    crate::codec::lemma_encode_words_shape(data);
    lemma_decode_encode_words(data);
}

} // verus!
