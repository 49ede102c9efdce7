//! Little-endian byte form of 128-bit words.

use vstd::prelude::*;

verus! {

/// `256^n`.
pub open spec fn pow256(n: nat) -> nat
    decreases n,
{
    if n == 0 {
        1
    } else {
        256 * pow256((n - 1) as nat)
    }
}

/// The `n` low-order bytes of `x`, least significant first.
pub open spec fn le_bytes(x: nat, n: nat) -> Seq<u8>
    decreases n,
{
    if n == 0 {
        Seq::empty()
    } else {
        seq![(x % 256) as u8] + le_bytes(x / 256, (n - 1) as nat)
    }
}

/// The number that `bytes` spell, least significant byte first.
pub open spec fn le_value(bytes: Seq<u8>) -> nat
    decreases bytes.len(),
{
    if bytes.len() == 0 {
        0
    } else {
        bytes[0] as nat + 256 * le_value(bytes.drop_first())
    }
}

pub proof fn lemma_pow256_16()
    ensures
        pow256(16) == 0x1_0000_0000_0000_0000_0000_0000_0000_0000,
{
    reveal_with_fuel(pow256, 17);
}

pub proof fn lemma_pow256_positive(n: nat)
    ensures
        pow256(n) >= 1,
    decreases n,
{
    if n > 0 {
        lemma_pow256_positive((n - 1) as nat);
    }
}

pub proof fn lemma_le_bytes_len(x: nat, n: nat)
    ensures
        le_bytes(x, n).len() == n,
    decreases n,
{
    if n > 0 {
        lemma_le_bytes_len(x / 256, (n - 1) as nat);
    }
}

pub proof fn lemma_le_value_bound(bytes: Seq<u8>)
    ensures
        le_value(bytes) < pow256(bytes.len()),
    decreases bytes.len(),
{
    if bytes.len() > 0 {
        let rest = bytes.drop_first();
        lemma_le_value_bound(rest);
        let v = le_value(rest);
        let p = pow256(rest.len());
        assert(bytes[0] as nat + 256 * v < 256 * p) by (nonlinear_arith)
            requires
                bytes[0] < 256,
                v < p,
        ;
    }
}

/// Decoding the encoding of a number that fits in `n` bytes gives it back.
pub proof fn lemma_value_of_bytes(x: nat, n: nat)
    requires
        x < pow256(n),
    ensures
        le_value(le_bytes(x, n)) == x,
    decreases n,
{
    if n == 0 {
    } else {
        let p = pow256((n - 1) as nat);
        assert(x / 256 < p) by (nonlinear_arith)
            requires
                x < 256 * p,
        ;
        lemma_value_of_bytes(x / 256, (n - 1) as nat);
        let s = le_bytes(x, n);
        assert(s.drop_first() =~= le_bytes(x / 256, (n - 1) as nat));
        assert(x == x % 256 + 256 * (x / 256)) by (nonlinear_arith);
    }
}

/// Encoding the value of a byte sequence gives the sequence back.
pub proof fn lemma_bytes_of_value(bytes: Seq<u8>)
    ensures
        le_bytes(le_value(bytes), bytes.len()) == bytes,
    decreases bytes.len(),
{
    if bytes.len() > 0 {
        let rest = bytes.drop_first();
        lemma_bytes_of_value(rest);
        let v = le_value(bytes);
        let b = bytes[0] as nat;
        let r = le_value(rest);
        vstd::arithmetic::div_mod::lemma_fundamental_div_mod_converse(v as int, 256, r as int, b as int);
        assert(le_bytes(v, bytes.len()) =~= bytes);
    }
}

/// Appends the 16-byte little-endian form of `x` to `out`.
pub fn write_u128(x: u128, out: &mut Vec<u8>)
    ensures
        final(out)@ == old(out)@ + le_bytes(x as nat, 16),
{
    let ghost start = out@;
    let mut v: u128 = x;
    let mut i: usize = 0;
    while i < 16
        invariant
            i <= 16,
            out@ + le_bytes(v as nat, (16 - i) as nat) == start + le_bytes(x as nat, 16),
        decreases 16 - i,
    {
        let ghost before = out@;
        let ghost rest = le_bytes((v / 256) as nat, (15 - i) as nat);
        out.push((v % 256) as u8);
        proof {
            assert(le_bytes(v as nat, (16 - i) as nat) == seq![(v % 256) as u8] + rest);
            assert(out@ + rest =~= before + (seq![(v % 256) as u8] + rest));
        }
        v = v / 256;
        i = i + 1;
    }
    assert(le_bytes(v as nat, 0) =~= Seq::<u8>::empty());
    assert(out@ =~= out@ + le_bytes(v as nat, 0));
}

/// Reads the 16-byte little-endian word that `bytes` holds.
pub fn read_u128(bytes: &[u8]) -> (r: u128)
    requires
        bytes@.len() == 16,
    ensures
        r as nat == le_value(bytes@),
{
    assert(bytes@.subrange(0, 16) =~= bytes@);
    read_u128_at(bytes, 0)
}

/// Reads the 16-byte little-endian word that starts at `start`.
pub fn read_u128_at(bytes: &[u8], start: usize) -> (r: u128)
    requires
        start + 16 <= bytes@.len(),
    ensures
        r as nat == le_value(bytes@.subrange(start as int, start + 16)),
{
    let ghost word = bytes@.subrange(start as int, start + 16);
    let len = bytes.len();
    let mut acc: u128 = 0;
    let mut i: usize = 16;
    proof {
        lemma_pow256_16();
        assert(word.subrange(16, 16) =~= Seq::<u8>::empty());
    }
    while i > 0
        invariant
            i <= 16,
            start + 16 <= bytes@.len(),
            len == bytes@.len(),
            word == bytes@.subrange(start as int, start + 16),
            acc as nat == le_value(word.subrange(i as int, 16)),
            pow256(16) == 0x1_0000_0000_0000_0000_0000_0000_0000_0000,
        decreases i,
    {
        let ghost tail = word.subrange(i as int, 16);
        let ghost longer = word.subrange(i - 1, 16);
        proof {
            lemma_le_value_bound(tail);
            assert(longer.drop_first() =~= tail);
            let p = pow256(tail.len());
            assert(pow256((tail.len() + 1) as nat) == 256 * p);
            assert(pow256(tail.len()) <= pow256(15)) by {
                lemma_pow256_mono(tail.len(), 15);
            }
            assert(pow256(16) == 256 * pow256(15));
            assert(acc * 256 + word[i - 1] < 256 * pow256(15)) by (nonlinear_arith)
                requires
                    acc < p,
                    p <= pow256(15),
                    word[i - 1] < 256,
            ;
        }
        acc = acc * 256 + bytes[start + i - 1] as u128;
        i = i - 1;
    }
    assert(word.subrange(0, 16) =~= word);
    acc
}

/// The byte form of a sequence of words: each word's 16 little-endian
/// bytes, one after another.
pub open spec fn encode_words(s: Seq<u128>) -> Seq<u8>
    decreases s.len(),
{
    if s.len() == 0 {
        Seq::empty()
    } else {
        encode_words(s.drop_last()) + le_bytes(s.last() as nat, 16)
    }
}

/// The words that a byte sequence of length a multiple of 16 spells.
pub open spec fn decode_words(b: Seq<u8>) -> Seq<u128> {
    Seq::new(b.len() / 16, |i: int| le_value(b.subrange(16 * i, 16 * i + 16)) as u128)
}

pub proof fn lemma_encode_words_shape(s: Seq<u128>)
    ensures
        encode_words(s).len() == 16 * s.len(),
        forall|i: int|
            0 <= i < s.len() ==> #[trigger] encode_words(s).subrange(16 * i, 16 * i + 16) == le_bytes(
                s[i] as nat,
                16,
            ),
    decreases s.len(),
{
    if s.len() > 0 {
        let p = s.drop_last();
        lemma_encode_words_shape(p);
        lemma_le_bytes_len(s.last() as nat, 16);
        let e = encode_words(s);
        assert forall|i: int| 0 <= i < s.len() implies #[trigger] e.subrange(16 * i, 16 * i + 16)
            == le_bytes(s[i] as nat, 16) by {
            if i < p.len() {
                assert(e.subrange(16 * i, 16 * i + 16) =~= encode_words(p).subrange(16 * i, 16 * i + 16));
                assert(p[i] == s[i]);
            } else {
                assert(e.subrange(16 * i, 16 * i + 16) =~= le_bytes(s.last() as nat, 16));
            }
        }
    }
}

/// Decoding the byte form of a sequence of words gives the words back.
pub proof fn lemma_decode_encode_words(s: Seq<u128>)
    ensures
        decode_words(encode_words(s)) == s,
{
    lemma_encode_words_shape(s);
    lemma_pow256_16();
    let d = decode_words(encode_words(s));
    assert forall|i: int| 0 <= i < s.len() implies d[i] == s[i] by {
        assert(encode_words(s).subrange(16 * i, 16 * i + 16) == le_bytes(s[i] as nat, 16));
        lemma_value_of_bytes(s[i] as nat, 16);
    }
    assert(d =~= s);
}

/// Reads every 16-byte word of `bytes`.
pub fn read_words(bytes: &[u8]) -> (r: Vec<u128>)
    requires
        bytes@.len() % 16 == 0,
    ensures
        r@ == decode_words(bytes@),
{
    let len = bytes.len();
    let n = len / 16;
    let mut out: Vec<u128> = Vec::new();
    let mut k: usize = 0;
    while k < n
        invariant
            n == bytes@.len() / 16,
            len == bytes@.len(),
            bytes@.len() % 16 == 0,
            k <= n,
            out@ =~= decode_words(bytes@).take(k as int),
        decreases n - k,
    {
        proof {
            assert(16 * k + 16 <= bytes@.len()) by (nonlinear_arith)
                requires
                    k < n,
                    n == bytes@.len() / 16,
            ;
        }
        let w = read_u128_at(bytes, 16 * k);
        out.push(w);
        k = k + 1;
    }
    assert(decode_words(bytes@).take(n as int) =~= decode_words(bytes@));
    out
}

/// Writes the byte form of `words`.
pub fn write_words(words: &[u128]) -> (r: Vec<u8>)
    ensures
        r@ == encode_words(words@),
{
    let mut out: Vec<u8> = Vec::new();
    let mut k: usize = 0;
    while k < words.len()
        invariant
            k <= words@.len(),
            out@ == encode_words(words@.take(k as int)),
        decreases words@.len() - k,
    {
        write_u128(words[k], &mut out);
        proof {
            let t = words@.take(k + 1);
            assert(t.drop_last() =~= words@.take(k as int));
        }
        k = k + 1;
    }
    assert(words@.take(words@.len() as int) =~= words@);
    out
}

pub proof fn lemma_pow256_mono(m: nat, n: nat)
    requires
        m <= n,
    ensures
        pow256(m) <= pow256(n),
    decreases n,
{
    if m < n {
        lemma_pow256_mono(m, (n - 1) as nat);
    }
}

} // verus!
