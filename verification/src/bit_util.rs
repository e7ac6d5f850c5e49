//! Bit utilities: rounding to 64-byte multiples, `ceil` division, and
//! LSB-0 bit access within byte buffers (the Arrow bitmap convention:
//! bit `i` lives in byte `i / 8` at position `i % 8`).

use vstd::prelude::*;

verus! {

/// `ceil(n / d)` over mathematical integers.
pub open spec fn spec_ceil(n: int, d: int) -> int
    recommends
        n >= 0,
        d > 0,
{
    (n + d - 1) / d
}

/// Smallest multiple of 64 that is at least `n`.
pub open spec fn spec_round_up_64(n: int) -> int
    recommends
        n >= 0,
{
    spec_ceil(n, 64) * 64
}

/// Whether bit `k` (LSB-0) of byte `b` is set.
pub open spec fn bit8(b: u8, k: u8) -> bool
    recommends
        k < 8,
{
    (b >> k) & 1 == 1
}

/// Whether bit `i` of a byte sequence is set, LSB-0 within each byte.
pub open spec fn nth_bit(bytes: Seq<u8>, i: int) -> bool
    recommends
        0 <= i < bytes.len() * 8,
{
    bit8(bytes[i / 8], (i % 8) as u8)
}

/// The first `n` bits of a byte sequence, as a sequence of booleans.
pub open spec fn bit_seq(bytes: Seq<u8>, n: int) -> Seq<bool>
    recommends
        0 <= n <= bytes.len() * 8,
{
    Seq::new(n as nat, |i: int| nth_bit(bytes, i))
}

/// Number of `true` entries in a boolean sequence.
pub open spec fn count_trues(s: Seq<bool>) -> int
    decreases s.len(),
{
    if s.len() == 0 {
        0
    } else {
        count_trues(s.drop_last()) + if s.last() {
            1int
        } else {
            0int
        }
    }
}

/// Appending one entry raises the count exactly when the entry is `true`;
/// this is what ties an array's null count to the number of null slots
/// pushed into its builder.
pub proof fn lemma_count_trues_push(s: Seq<bool>, b: bool)
    ensures
        count_trues(s.push(b)) == count_trues(s) + if b {
            1int
        } else {
            0int
        },
{
    assert(s.push(b).drop_last() =~= s);
}

pub proof fn lemma_count_trues_bounds(s: Seq<bool>)
    ensures
        0 <= count_trues(s) <= s.len(),
    decreases s.len(),
{
    if s.len() > 0 {
        lemma_count_trues_bounds(s.drop_last());
    }
}

/// Extending the counted range over bits that are all clear does not change
/// the count.
pub proof fn lemma_count_trues_zero_tail(bytes: Seq<u8>, n: int, m: int)
    requires
        0 <= n <= m,
        forall|i: int| n <= i < m ==> !nth_bit(bytes, i),
    ensures
        count_trues(bit_seq(bytes, m)) == count_trues(bit_seq(bytes, n)),
    decreases m - n,
{
    if m > n {
        lemma_count_trues_zero_tail(bytes, n, m - 1);
        assert(bit_seq(bytes, m).drop_last() =~= bit_seq(bytes, m - 1));
    }
}

/// Bounds of `spec_ceil`: the rounded quotient covers `n` and overshoots
/// by less than `d`.
pub proof fn lemma_ceil_bounds(n: int, d: int)
    requires
        n >= 0,
        d > 0,
    ensures
        0 <= spec_ceil(n, d),
        n <= spec_ceil(n, d) * d < n + d,
{
    let q = spec_ceil(n, d);
    assert(0 <= q && n <= q * d && q * d < n + d) by (nonlinear_arith)
        requires
            n >= 0,
            d > 0,
            q == (n + d - 1) / d,
    ;
}

/// `spec_ceil` is monotone in its first argument.
pub proof fn lemma_ceil_monotone(a: int, b: int, d: int)
    requires
        0 <= a <= b,
        d > 0,
    ensures
        spec_ceil(a, d) <= spec_ceil(b, d),
{
    assert((a + d - 1) / d <= (b + d - 1) / d) by (nonlinear_arith)
        requires
            0 <= a <= b,
            d > 0,
    ;
}

/// A bit index below `8 * e` lies in a byte index below `e`, at a bit
/// position below 8.
pub proof fn lemma_bit_index_byte(j: int, e: int)
    requires
        0 <= j,
        j < e * 8,
    ensures
        0 <= j / 8 < e,
        0 <= j % 8 < 8,
{
    vstd::arithmetic::div_mod::lemma_fundamental_div_mod(j, 8);
    assert(j == 8 * (j / 8) + j % 8);
    assert(j / 8 < e) by (nonlinear_arith)
        requires
            j < e * 8,
            j == 8 * (j / 8) + j % 8,
            0 <= j % 8 < 8,
    ;
}

/// A bit count within `8 * cap` bits needs at most `cap` bytes.
pub proof fn lemma_ceil8_within(n: int, cap: int)
    requires
        0 <= n <= 8 * cap,
    ensures
        spec_ceil(n, 8) <= cap,
{
    assert((n + 7) / 8 <= cap) by (nonlinear_arith)
        requires
            0 <= n <= 8 * cap,
    ;
}

/// Bounds of `spec_round_up_64`.
pub proof fn lemma_round_up_64_bounds(n: int)
    requires
        n >= 0,
    ensures
        n <= spec_round_up_64(n) < n + 64,
        spec_round_up_64(n) % 64 == 0,
{
    let q = spec_ceil(n, 64);
    assert(n <= q * 64 && q * 64 < n + 64 && (q * 64) % 64 == 0) by (nonlinear_arith)
        requires
            n >= 0,
            q == (n + 64 - 1) / 64,
    ;
}

/// `ceil(n / d)` for non-negative `n` and positive `d`.
pub fn ceil(n: i64, d: i64) -> (r: i64)
    requires
        n >= 0,
        d > 0,
        n + d <= i64::MAX,
    ensures
        r == spec_ceil(n as int, d as int),
        r * d >= n,
        d == 8 ==> r * 8 - n < 8,
{
    proof {
        let q = spec_ceil(n as int, d as int);
        assert(q * d >= n && q * d - n < d) by (nonlinear_arith)
            requires
                n >= 0,
                d > 0,
                q == (n as int + d as int - 1) / (d as int),
        ;
    }
    (n + d - 1) / d
}

/// Smallest multiple of 64 that is at least `n`.
pub fn round_upto_multiple_of_64(n: usize) -> (r: usize)
    requires
        n + 63 <= usize::MAX,
    ensures
        r == spec_round_up_64(n as int),
        r >= n,
        r % 64 == 0,
        r < n + 64,
        n == 0 ==> r == 0,
{
    let q: usize = (n + 63) / 64;
    proof {
        let qi = spec_ceil(n as int, 64);
        assert(qi * 64 >= n && qi * 64 - n < 64 && (qi * 64) % 64 == 0) by (nonlinear_arith)
            requires
                n >= 0,
                qi == (n as int + 63) / 64,
        ;
        assert(q * 64 == qi * 64);
    }
    q * 64
}

proof fn lemma_bit8_or_set(b: u8, k: u8, j: u8)
    requires
        k < 8,
        j < 8,
    ensures
        bit8(b | (1u8 << k), k),
        j != k ==> bit8(b | (1u8 << k), j) == bit8(b, j),
{
    assert(((b | (1u8 << k)) >> k) & 1 == 1) by (bit_vector)
        requires
            k < 8,
    ;
    assert(j != k ==> ((b | (1u8 << k)) >> j) & 1 == (b >> j) & 1) by (bit_vector)
        requires
            k < 8,
            j < 8,
    ;
}

proof fn lemma_bit8_and_clear(b: u8, k: u8, j: u8)
    requires
        k < 8,
        j < 8,
    ensures
        !bit8(b & !(1u8 << k), k),
        j != k ==> bit8(b & !(1u8 << k), j) == bit8(b, j),
{
    assert(((b & !(1u8 << k)) >> k) & 1 == 0) by (bit_vector)
        requires
            k < 8,
    ;
    assert(j != k ==> ((b & !(1u8 << k)) >> j) & 1 == (b >> j) & 1) by (bit_vector)
        requires
            k < 8,
            j < 8,
    ;
}

/// No bit of a zero byte is set.
pub proof fn lemma_bit8_zero(k: u8)
    requires
        k < 8,
    ensures
        !bit8(0u8, k),
{
    assert((0u8 >> k) & 1 == 0) by (bit_vector);
}

/// Reads bit `i` of `data`, LSB-0 within each byte.
pub fn get_bit(data: &[u8], i: usize) -> (r: bool)
    requires
        i < data@.len() * 8,
    ensures
        r == nth_bit(data@, i as int),
{
    let byte: u8 = data[i / 8];
    let k: u8 = (i % 8) as u8;
    (byte >> k) & 1 == 1
}

/// Sets bit `i` of `data` to 1; every other bit is unchanged.
pub fn set_bit(data: &mut Vec<u8>, i: usize)
    requires
        i < old(data)@.len() * 8,
    ensures
        final(data)@.len() == old(data)@.len(),
        nth_bit(final(data)@, i as int),
        forall|j: int|
            0 <= j < final(data)@.len() * 8 && j != i ==> nth_bit(final(data)@, j) == nth_bit(old(data)@, j),
        forall|m: int| 0 <= m < final(data)@.len() && m != i / 8 ==> final(data)@[m] == old(data)@[m],
{
    let bi: usize = i / 8;
    let k: u8 = (i % 8) as u8;
    let updated: u8 = data[bi] | (1u8 << k);
    data[bi] = updated;
    proof {
        assert forall|j: int| 0 <= j < data@.len() * 8 implies (if j == i {
            nth_bit(data@, j)
        } else {
            nth_bit(data@, j) == nth_bit(old(data)@, j)
        }) by {
            if j / 8 == i / 8 {
                lemma_bit8_or_set(old(data)@[i as int / 8], k, (j % 8) as u8);
            }
        }
    }
}

/// Sets bit `i` of `data` to 0; every other bit is unchanged.
pub fn clear_bit(data: &mut Vec<u8>, i: usize)
    requires
        i < old(data)@.len() * 8,
    ensures
        final(data)@.len() == old(data)@.len(),
        !nth_bit(final(data)@, i as int),
        forall|j: int|
            0 <= j < final(data)@.len() * 8 && j != i ==> nth_bit(final(data)@, j) == nth_bit(old(data)@, j),
        forall|m: int| 0 <= m < final(data)@.len() && m != i / 8 ==> final(data)@[m] == old(data)@[m],
{
    let bi: usize = i / 8;
    let k: u8 = (i % 8) as u8;
    let updated: u8 = data[bi] & !(1u8 << k);
    data[bi] = updated;
    proof {
        assert forall|j: int| 0 <= j < data@.len() * 8 implies (if j == i {
            !nth_bit(data@, j)
        } else {
            nth_bit(data@, j) == nth_bit(old(data)@, j)
        }) by {
            if j / 8 == i / 8 {
                lemma_bit8_and_clear(old(data)@[i as int / 8], k, (j % 8) as u8);
            }
        }
    }
}

/// Counts the set bits over the whole byte slice.
pub fn count_set_bits(data: &[u8]) -> (r: i64)
    requires
        data@.len() * 8 <= usize::MAX,
        data@.len() * 8 <= i64::MAX,
    ensures
        r == count_trues(bit_seq(data@, data@.len() as int * 8)),
        0 <= r <= data@.len() * 8,
{
    let n_bits: usize = data.len() * 8;
    let mut count: i64 = 0;
    let mut i: usize = 0;
    while i < n_bits
        invariant
            0 <= i <= n_bits,
            n_bits == data@.len() * 8,
            n_bits <= i64::MAX,
            count == count_trues(bit_seq(data@, i as int)),
            0 <= count <= i,
        decreases n_bits - i,
    {
        proof {
            assert(bit_seq(data@, i + 1).drop_last() =~= bit_seq(data@, i as int));
        }
        if get_bit(data, i) {
            count = count + 1;
        }
        i = i + 1;
    }
    count
}

} // verus!
