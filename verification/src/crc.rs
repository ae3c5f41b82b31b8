//! CRC-8 integrity check used by the radio frame: polynomial 0x07,
//! most-significant-bit first, initial value 0, computed over the payload.
//!
//! The lemmas at the bottom show that the check detects every single-bit
//! corruption of the bytes it covers: the CRC state update is linear over
//! bitwise xor and injective, so a nonzero difference in the data always
//! leaves a nonzero difference in the checksum.

use vstd::prelude::*;

verus! {

/// One shift round of the MSB-first CRC-8 with polynomial 0x07.
pub open spec fn crc8_shift(s: u8) -> u8 {
    if s & 0x80 == 0x80 {
        (s << 1) ^ 0x07
    } else {
        s << 1
    }
}

/// `n` shift rounds applied to `s`.
pub open spec fn crc8_shift_n(n: nat, s: u8) -> u8
    decreases n,
{
    if n == 0 {
        s
    } else {
        crc8_shift(crc8_shift_n((n - 1) as nat, s))
    }
}

/// CRC state update for one data byte.
pub open spec fn crc8_update(s: u8, b: u8) -> u8 {
    crc8_shift_n(8, s ^ b)
}

/// CRC of `data` starting from state `s`.
pub open spec fn crc8_from(s: u8, data: Seq<u8>) -> u8
    decreases data.len(),
{
    if data.len() == 0 {
        s
    } else {
        crc8_from(crc8_update(s, data[0]), data.drop_first())
    }
}

/// CRC-8 of `data`: polynomial 0x07, MSB first, initial value 0.
pub open spec fn crc8(data: Seq<u8>) -> u8 {
    crc8_from(0, data)
}

/// Computes the CRC-8 of `data`.
pub fn crc8_compute(data: &[u8]) -> (r: u8)
    ensures
        r == crc8(data@),
{
    let mut crc: u8 = 0;
    let mut i: usize = 0;
    proof {
        assert(data@.skip(0) =~= data@);
    }
    while i < data.len()
        invariant
            0 <= i <= data@.len(),
            crc8(data@) == crc8_from(crc, data@.skip(i as int)),
        decreases data@.len() - i,
    {
        let b = data[i];
        let ghost prev = crc;
        let mut cur = crc ^ b;
        let mut k: usize = 0;
        while k < 8
            invariant
                k <= 8,
                cur == crc8_shift_n(k as nat, (prev ^ b) as u8),
            decreases 8 - k,
        {
            cur = if cur & 0x80 == 0x80 {
                (cur << 1) ^ 0x07
            } else {
                cur << 1
            };
            k += 1;
        }
        proof {
            assert(cur == crc8_update(prev, b));
            assert(data@.skip(i as int)[0] == data@[i as int]);
            assert(data@.skip(i as int).drop_first() =~= data@.skip(i as int + 1));
        }
        crc = cur;
        i += 1;
    }
    proof {
        assert(data@.skip(data@.len() as int).len() == 0);
    }
    crc
}

proof fn lemma_shift_linear(a: u8, b: u8)
    ensures
        crc8_shift(a ^ b) == crc8_shift(a) ^ crc8_shift(b),
{
    assert((if (a ^ b) & 0x80 == 0x80 {
        ((a ^ b) << 1) ^ 0x07
    } else {
        (a ^ b) << 1
    }) == (if a & 0x80 == 0x80 {
        (a << 1) ^ 0x07
    } else {
        a << 1
    }) ^ (if b & 0x80 == 0x80 {
        (b << 1) ^ 0x07
    } else {
        b << 1
    })) by (bit_vector);
}

proof fn lemma_shift_injective(a: u8, b: u8)
    requires
        crc8_shift(a) == crc8_shift(b),
    ensures
        a == b,
{
    assert((if a & 0x80 == 0x80 {
        (a << 1) ^ 0x07
    } else {
        a << 1
    }) == (if b & 0x80 == 0x80 {
        (b << 1) ^ 0x07
    } else {
        b << 1
    }) ==> a == b) by (bit_vector);
}

proof fn lemma_shift_n_linear(n: nat, a: u8, b: u8)
    ensures
        crc8_shift_n(n, a ^ b) == crc8_shift_n(n, a) ^ crc8_shift_n(n, b),
    decreases n,
{
    if n != 0 {
        lemma_shift_n_linear((n - 1) as nat, a, b);
        lemma_shift_linear(crc8_shift_n((n - 1) as nat, a), crc8_shift_n((n - 1) as nat, b));
    }
}

proof fn lemma_shift_n_injective(n: nat, a: u8, b: u8)
    requires
        crc8_shift_n(n, a) == crc8_shift_n(n, b),
    ensures
        a == b,
    decreases n,
{
    if n != 0 {
        lemma_shift_injective(crc8_shift_n((n - 1) as nat, a), crc8_shift_n((n - 1) as nat, b));
        lemma_shift_n_injective((n - 1) as nat, a, b);
    }
}

proof fn lemma_shift_n_zero(n: nat)
    ensures
        crc8_shift_n(n, 0) == 0,
    decreases n,
{
    if n != 0 {
        lemma_shift_n_zero((n - 1) as nat);
        assert(crc8_shift(0u8) == 0u8) by (bit_vector);
    }
}

proof fn lemma_update_linear(s1: u8, b1: u8, s2: u8, b2: u8)
    ensures
        crc8_update(s1 ^ s2, b1 ^ b2) == crc8_update(s1, b1) ^ crc8_update(s2, b2),
{
    assert((s1 ^ s2) ^ (b1 ^ b2) == (s1 ^ b1) ^ (s2 ^ b2)) by (bit_vector);
    lemma_shift_n_linear(8, s1 ^ b1, s2 ^ b2);
}

/// Pointwise xor of two byte sequences of equal length.
pub open spec fn xor_seq(a: Seq<u8>, b: Seq<u8>) -> Seq<u8> {
    Seq::new(a.len(), |i: int| a[i] ^ b[i])
}

proof fn lemma_from_linear(s1: u8, d1: Seq<u8>, s2: u8, d2: Seq<u8>)
    requires
        d1.len() == d2.len(),
    ensures
        crc8_from(s1 ^ s2, xor_seq(d1, d2)) == crc8_from(s1, d1) ^ crc8_from(s2, d2),
    decreases d1.len(),
{
    if d1.len() == 0 {
    } else {
        lemma_update_linear(s1, d1[0], s2, d2[0]);
        assert(xor_seq(d1, d2).drop_first() =~= xor_seq(d1.drop_first(), d2.drop_first()));
        lemma_from_linear(crc8_update(s1, d1[0]), d1.drop_first(), crc8_update(s2, d2[0]), d2.drop_first());
    }
}

/// The all-zero sequence of length `n`.
pub open spec fn zero_bytes(n: nat) -> Seq<u8> {
    Seq::new(n, |i: int| 0u8)
}

proof fn lemma_from_zeros_keeps_nonzero(s: u8, n: nat)
    requires
        s != 0,
    ensures
        crc8_from(s, zero_bytes(n)) != 0,
    decreases n,
{
    if n != 0 {
        assert(s ^ 0 == s) by (bit_vector);
        lemma_shift_n_zero(8);
        if crc8_shift_n(8, s) == 0 {
            lemma_shift_n_injective(8, s, 0);
        }
        assert(zero_bytes(n).drop_first() =~= zero_bytes((n - 1) as nat));
        lemma_from_zeros_keeps_nonzero(crc8_update(s, 0), (n - 1) as nat);
    }
}

/// A sequence of `n` zero bytes except for `e` at position `i`.
pub open spec fn single_byte_delta(n: nat, i: int, e: u8) -> Seq<u8> {
    Seq::new(n, |j: int| if j == i { e } else { 0u8 })
}

proof fn lemma_delta_crc_nonzero(n: nat, i: int, e: u8)
    requires
        0 <= i < n,
        e != 0,
    ensures
        crc8_from(0, single_byte_delta(n, i, e)) != 0,
    decreases i,
{
    let d = single_byte_delta(n, i, e);
    if i == 0 {
        assert(0u8 ^ e == e) by (bit_vector);
        lemma_shift_n_zero(8);
        if crc8_shift_n(8, e) == 0 {
            lemma_shift_n_injective(8, e, 0);
        }
        assert(d.drop_first() =~= zero_bytes((n - 1) as nat));
        lemma_from_zeros_keeps_nonzero(crc8_update(0, e), (n - 1) as nat);
    } else {
        assert(0u8 ^ 0u8 == 0u8) by (bit_vector);
        lemma_shift_n_zero(8);
        assert(crc8_update(0, 0) == 0);
        assert(d.drop_first() =~= single_byte_delta((n - 1) as nat, i - 1, e));
        lemma_delta_crc_nonzero((n - 1) as nat, i - 1, e);
    }
}


/// `b` with bit `j` flipped.
pub open spec fn flip_bit(b: u8, j: u8) -> u8 {
    b ^ (1u8 << j)
}

/// Corrupting any single bit of the covered data changes the CRC-8.
pub proof fn lemma_crc8_detects_bit_flip(data: Seq<u8>, i: int, j: u8)
    requires
        0 <= i < data.len(),
        j < 8,
    ensures
        crc8(data.update(i, flip_bit(data[i], j))) != crc8(data),
{
    let e = (1u8 << j) as u8;
    assert(j < 8 ==> (1u8 << j) != 0) by (bit_vector);
    let delta = single_byte_delta(data.len() as nat, i, e);
    let flipped = data.update(i, flip_bit(data[i], j));
    assert forall|k: int| 0 <= k < data.len() implies xor_seq(data, delta)[k] == flipped[k] by {
        if k != i {
            let x = data[k];
            assert(x ^ 0u8 == x) by (bit_vector);
        }
    }
    assert(xor_seq(data, delta) =~= flipped);
    assert(0u8 ^ 0u8 == 0u8) by (bit_vector);
    lemma_from_linear(0, data, 0, delta);
    lemma_delta_crc_nonzero(data.len() as nat, i, e);
    let a = crc8_from(0, data);
    let c = crc8_from(0, delta);
    assert(c != 0 ==> (a ^ c) != a) by (bit_vector);
}

} // verus!
