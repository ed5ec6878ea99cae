//! Arithmetic on slot indices.
//!
//! A ring has `n` slots, `n` a power of two between `2` and `2^31`. Indices run
//! in `[0, n)` and all arithmetic on them is modulo `n`. Because `n` divides
//! `2^32`, the lower 32 bits of a sum or a difference, masked with `n - 1`,
//! are exactly that.
use vstd::prelude::*;
use vstd::arithmetic::power2::pow2;
use vstd::arithmetic::power2::lemma_pow2_adds;
use vstd::arithmetic::power2::lemma_pow2_strictly_increases;
use vstd::arithmetic::power2::lemma2_to64;
use vstd::arithmetic::div_mod::lemma_add_mod_noop;
use vstd::arithmetic::div_mod::lemma_fundamental_div_mod;
use vstd::arithmetic::div_mod::lemma_fundamental_div_mod_converse;
use vstd::arithmetic::div_mod::lemma_mod_bound;
use vstd::arithmetic::div_mod::lemma_mod_multiples_basic;
use vstd::arithmetic::div_mod::lemma_mod_twice;
use vstd::arithmetic::div_mod::lemma_small_mod;
use vstd::arithmetic::div_mod::lemma_sub_mod_noop;
use vstd::arithmetic::div_mod::lemma_mod_multiples_vanish;
use vstd::bits::low_bits_mask;
use vstd::bits::lemma_u32_low_bits_mask_is_mod;

verus! {

/// The bit of a 32-bit tail word that marks its side as finished.
pub const FINISHED: u32 = 0x8000_0000;

/// The bits of a 32-bit tail word that hold the position.
pub const POSITION: u32 = 0x7FFF_FFFF;

/// A ring can have `n` slots: `n` is `2^k` for some `k` in `1..=31`.
pub open spec fn valid_capacity(n: int) -> bool {
    exists|k: nat| 1 <= k <= 31 && n == #[trigger] pow2(k)
}

/// The number of slots of a ring of size `N`.
pub open spec fn slots<const N: usize>() -> int {
    N as int
}

/// `x` reduced to an index of a ring with `n` slots.
pub open spec fn wrap(n: int, x: int) -> int {
    x % n
}

/// Whether a 32-bit tail word carries the finished mark.
pub open spec fn spec_is_finished(word: u32) -> bool {
    word >= 0x8000_0000
}

/// The position held by a 32-bit tail word, without the finished mark.
pub open spec fn spec_position(word: u32) -> int {
    word as int % 0x8000_0000
}

/// A valid capacity lies in `[2, 2^31]` and divides `2^32`.
pub proof fn lemma_capacity_bounds(n: int)
    requires
        valid_capacity(n),
    ensures
        2 <= n <= 0x8000_0000,
        0x1_0000_0000int % n == 0,
{
    let k = choose|k: nat| 1 <= k <= 31 && n == #[trigger] pow2(k);
    lemma2_to64();
    if 1 < k {
        lemma_pow2_strictly_increases(1, k);
    }
    if k < 31 {
        lemma_pow2_strictly_increases(k, 31);
    }
    let rest = (32 - k) as nat;
    lemma_pow2_adds(rest, k);
    assert(pow2(32) == pow2(rest) * pow2(k));
    lemma_mod_multiples_basic(pow2(rest) as int, n);
}

/// Every power of two from `2` to `2^31` is a valid capacity.
pub proof fn lemma_power_of_two_is_valid(k: nat)
    requires
        1 <= k <= 31,
    ensures
        valid_capacity(pow2(k) as int),
{
}

/// The valid capacities are the numbers from `2` to `2^31` that share no bit
/// with their predecessor.
pub proof fn lemma_capacity_bits(n: u32)
    ensures
        valid_capacity(n as int) <==> (2 <= n <= 0x8000_0000 && n & ((n - 1) as u32) == 0),
{
    lemma2_to64();
    if valid_capacity(n as int) {
        let k = choose|k: nat| 1 <= k <= 31 && n as int == #[trigger] pow2(k);
        assert(n == 0x2 || n == 0x4 || n == 0x8 || n == 0x10 || n == 0x20 || n == 0x40 || n
            == 0x80 || n == 0x100 || n == 0x200 || n == 0x400 || n == 0x800 || n == 0x1000 || n
            == 0x2000 || n == 0x4000 || n == 0x8000 || n == 0x1_0000 || n == 0x2_0000 || n
            == 0x4_0000 || n == 0x8_0000 || n == 0x10_0000 || n == 0x20_0000 || n == 0x40_0000
            || n == 0x80_0000 || n == 0x100_0000 || n == 0x200_0000 || n == 0x400_0000 || n
            == 0x800_0000 || n == 0x1000_0000 || n == 0x2000_0000 || n == 0x4000_0000 || n
            == 0x8000_0000);
    }
    assert((n == 0x2 || n == 0x4 || n == 0x8 || n == 0x10 || n == 0x20 || n == 0x40 || n == 0x80
        || n == 0x100 || n == 0x200 || n == 0x400 || n == 0x800 || n == 0x1000 || n == 0x2000
        || n == 0x4000 || n == 0x8000 || n == 0x1_0000 || n == 0x2_0000 || n == 0x4_0000 || n
        == 0x8_0000 || n == 0x10_0000 || n == 0x20_0000 || n == 0x40_0000 || n == 0x80_0000 || n
        == 0x100_0000 || n == 0x200_0000 || n == 0x400_0000 || n == 0x800_0000 || n
        == 0x1000_0000 || n == 0x2000_0000 || n == 0x4000_0000 || n == 0x8000_0000) <==> (2 <= n
        <= 0x8000_0000 && n & ((n - 1) as u32) == 0)) by (bit_vector);
    if 2 <= n <= 0x8000_0000 && n & ((n - 1) as u32) == 0 {
        assert(n as int == pow2(1) || n as int == pow2(2) || n as int == pow2(3) || n as int
            == pow2(4) || n as int == pow2(5) || n as int == pow2(6) || n as int == pow2(7)
            || n as int == pow2(8) || n as int == pow2(9) || n as int == pow2(10) || n as int
            == pow2(11) || n as int == pow2(12) || n as int == pow2(13) || n as int == pow2(14)
            || n as int == pow2(15) || n as int == pow2(16) || n as int == pow2(17) || n as int
            == pow2(18) || n as int == pow2(19) || n as int == pow2(20) || n as int == pow2(21)
            || n as int == pow2(22) || n as int == pow2(23) || n as int == pow2(24) || n as int
            == pow2(25) || n as int == pow2(26) || n as int == pow2(27) || n as int == pow2(28)
            || n as int == pow2(29) || n as int == pow2(30) || n as int == pow2(31));
    }
}

/// Whether a ring can have `n` slots.
pub fn is_valid_capacity(n: usize) -> (valid: bool)
    ensures
        valid == valid_capacity(n as int),
{
    if n < 2 || n > 0x8000_0000 {
        proof {
            if valid_capacity(n as int) {
                lemma_capacity_bounds(n as int);
            }
        }
        false
    } else {
        let size: u32 = n as u32;
        proof {
            lemma_capacity_bits(size);
        }
        size & (size - 1) == 0
    }
}

/// Masking a 32-bit value with `n - 1` reduces it modulo `n`.
pub proof fn lemma_mask_wraps(n: int, x: u32)
    requires
        valid_capacity(n),
    ensures
        (x & ((n - 1) as u32)) as int == wrap(n, x as int),
        0 <= wrap(n, x as int) < n,
{
    let k = choose|k: nat| 1 <= k <= 31 && n == #[trigger] pow2(k);
    lemma_capacity_bounds(n);
    lemma_u32_low_bits_mask_is_mod(x, k);
    assert(low_bits_mask(k) == n - 1);
}

/// Adding a multiple of `2^32` does not change an index.
pub proof fn lemma_wrap_ignores_overflow(n: int, x: int, m: int)
    requires
        valid_capacity(n),
    ensures
        wrap(n, x + m * 0x1_0000_0000) == wrap(n, x),
{
    lemma_capacity_bounds(n);
    let q = 0x1_0000_0000int / n;
    assert(0x1_0000_0000int == q * n) by {
        lemma_fundamental_div_mod(0x1_0000_0000int, n);
        assert(q * n == n * q) by (nonlinear_arith);
    }
    assert(m * 0x1_0000_0000 == (m * q) * n) by (nonlinear_arith)
        requires
            0x1_0000_0000int == q * n,
    ;
    lemma_mod_multiples_vanish(m * q, x, n);
}

/// An index that lies within the ring is left as it is.
pub proof fn lemma_wrap_small(n: int, x: int)
    requires
        0 <= x < n,
    ensures
        wrap(n, x) == x,
{
    lemma_small_mod(x as nat, n as nat);
}

/// Reducing a summand before the sum is reduced changes nothing.
pub proof fn lemma_wrap_wrap(n: int, x: int, y: int)
    requires
        n > 0,
    ensures
        wrap(n, wrap(n, x) + y) == wrap(n, x + y),
        wrap(n, y - wrap(n, x)) == wrap(n, y - x),
        0 <= wrap(n, x) < n,
{
    lemma_mod_bound(x, n);
    lemma_mod_twice(x, n);
    lemma_add_mod_noop(x, y, n);
    lemma_add_mod_noop(wrap(n, x), y, n);
    lemma_sub_mod_noop(y, x, n);
    lemma_sub_mod_noop(y, wrap(n, x), n);
}

/// Moving `d` slots on from `x` adds `d` to the index of `x`, as long as that
/// stays within the ring.
pub proof fn lemma_wrap_shift(n: int, x: int, d: int)
    requires
        n > 0,
        0 <= wrap(n, x) + d < n,
    ensures
        wrap(n, x + d) == wrap(n, x) + d,
{
    lemma_fundamental_div_mod(x, n);
    let q = x / n;
    assert(n * q == q * n) by (nonlinear_arith);
    lemma_fundamental_div_mod_converse(x + d, n, q, x % n + d);
}

/// The index of `c - x` is `c` less the index of `x`, as long as that lies
/// within the ring.
pub proof fn lemma_wrap_complement(n: int, c: int, x: int)
    requires
        n > 0,
        0 <= c - wrap(n, x) < n,
    ensures
        wrap(n, c - x) == c - wrap(n, x),
{
    lemma_fundamental_div_mod(x, n);
    let q = x / n;
    assert(c - x == (-q) * n + (c - x % n)) by (nonlinear_arith)
        requires
            x == n * q + x % n,
    ;
    lemma_fundamental_div_mod_converse(c - x, n, -q, c - x % n);
}

/// Going back by less than once round from the first slot ends as far before
/// the end of the ring.
pub proof fn lemma_wrap_negative(n: int, x: int)
    requires
        -n <= x < 0,
    ensures
        wrap(n, x) == x + n,
{
    lemma_mod_multiples_vanish(1, x, n);
    lemma_small_mod((x + n) as nat, n as nat);
}

/// Two places that are less than once round apart lie in different slots.
pub proof fn lemma_distinct_slots(n: int, j: int, k: int)
    requires
        n > 0,
        j != k,
        -n < j - k < n,
    ensures
        wrap(n, j) != wrap(n, k),
{
    lemma_fundamental_div_mod(j, n);
    lemma_fundamental_div_mod(k, n);
    let a = j / n;
    let b = k / n;
    if wrap(n, j) == wrap(n, k) {
        assert(j - k == n * (a - b)) by (nonlinear_arith)
            requires
                j == n * a + j % n,
                k == n * b + k % n,
                j % n == k % n,
        ;
        assert(false) by (nonlinear_arith)
            requires
                j - k == n * (a - b),
                j != k,
                -n < j - k < n,
                n > 0,
        ;
    }
}

/// The bit mask that reduces a value to an index of a ring with `N` slots.
pub fn mask<const N: usize>() -> (m: u32)
    requires
        valid_capacity(N as int),
    ensures
        m == N - 1,
    opens_invariants none
    no_unwind
{
    proof {
        lemma_capacity_bounds(N as int);
    }
    (N - 1) as u32
}

/// The index `by` slots after `pos`.
pub fn advance<const N: usize>(pos: u32, by: u32) -> (r: u32)
    requires
        valid_capacity(N as int),
    ensures
        r as int == wrap(N as int, pos + by),
        r < N,
    opens_invariants none
    no_unwind
{
    let m: u32 = mask::<N>();
    let sum: u64 = pos as u64 + by as u64;
    let low: u32 = low_half(sum);
    proof {
        lemma_mask_wraps(N as int, low);
        if sum >= 0x1_0000_0000 {
            lemma_wrap_ignores_overflow(N as int, pos + by, -1);
        }
    }
    low & m
}

/// The number of slots from `from` forward to `to`.
pub fn distance<const N: usize>(from: u32, to: u32) -> (r: u32)
    requires
        valid_capacity(N as int),
    ensures
        r as int == wrap(N as int, to - from),
        r < N,
    opens_invariants none
    no_unwind
{
    let m: u32 = mask::<N>();
    let lifted: u64 = to as u64 + 0x1_0000_0000 - from as u64;
    let low: u32 = low_half(lifted);
    proof {
        lemma_mask_wraps(N as int, low);
        if lifted >= 0x1_0000_0000 {
            lemma_wrap_ignores_overflow(N as int, to - from + 0x1_0000_0000, -1);
        } else {
            lemma_wrap_ignores_overflow(N as int, to - from, 1);
        }
    }
    low & m
}

/// Whether a 32-bit tail word carries the finished mark.
pub fn is_finished_word(word: u32) -> (r: bool)
    ensures
        r == spec_is_finished(word),
    opens_invariants none
    no_unwind
{
    assert((word & 0x8000_0000 != 0) == (word >= 0x8000_0000)) by (bit_vector);
    word & FINISHED != 0
}

/// The position held by a 32-bit tail word.
pub fn position_of(word: u32) -> (r: u32)
    ensures
        r as int == spec_position(word),
        r < 0x8000_0000,
    opens_invariants none
    no_unwind
{
    assert(word & 0x7FFF_FFFF == word % 0x8000_0000) by (bit_vector);
    word & POSITION
}

/// The tail word with the given position and the finished mark of `observed`.
pub open spec fn spec_with_mark_of(position: u32, observed: u32) -> u32 {
    if spec_is_finished(observed) {
        (spec_position(position) + 0x8000_0000) as u32
    } else {
        spec_position(position) as u32
    }
}

/// The tail word that holds `position` and is marked as finished if
/// `observed` is: a mark that a tail carries stays when the tail moves.
pub fn with_mark_of(position: u32, observed: u32) -> (word: u32)
    ensures
        word == spec_with_mark_of(position, observed),
        spec_position(word) == spec_position(position),
        spec_is_finished(word) == spec_is_finished(observed),
    opens_invariants none
    no_unwind
{
    assert((position & 0x7FFF_FFFF) | (observed & 0x8000_0000) == if observed >= 0x8000_0000 {
        (position % 0x8000_0000 + 0x8000_0000) as u32
    } else {
        (position % 0x8000_0000) as u32
    }) by (bit_vector);
    (position & POSITION) | (observed & FINISHED)
}

/// The 64-bit word that holds `high` in its upper half and `low` in its lower
/// half.
pub open spec fn spec_pack(high: u32, low: u32) -> u64 {
    (high as int * 0x1_0000_0000 + low as int) as u64
}

/// The upper half of a 64-bit word.
pub open spec fn spec_high(word: u64) -> u32 {
    (word as int / 0x1_0000_0000) as u32
}

/// The lower half of a 64-bit word.
pub open spec fn spec_low(word: u64) -> u32 {
    (word as int % 0x1_0000_0000) as u32
}

/// Packing two halves and taking a word apart undo each other.
pub proof fn lemma_pack_halves(high: u32, low: u32, word: u64)
    ensures
        spec_high(spec_pack(high, low)) == high,
        spec_low(spec_pack(high, low)) == low,
        spec_pack(spec_high(word), spec_low(word)) == word,
{
}

/// The 64-bit word that holds `high` in its upper half and `low` in its lower
/// half.
pub fn pack(high: u32, low: u32) -> (word: u64)
    ensures
        word == spec_pack(high, low),
    opens_invariants none
    no_unwind
{
    assert(((high as u64) << 32) | (low as u64) == (high as u64) * 0x1_0000_0000 + (low as u64))
        by (bit_vector);
    ((high as u64) << 32) | (low as u64)
}

/// The upper half of a 64-bit word.
pub fn high_half(word: u64) -> (high: u32)
    ensures
        high == spec_high(word),
    opens_invariants none
    no_unwind
{
    assert(word >> 32 == word / 0x1_0000_0000) by (bit_vector);
    (word >> 32) as u32
}

/// The lower half of a 64-bit word.
pub fn low_half(word: u64) -> (low: u32)
    ensures
        low == spec_low(word),
    opens_invariants none
    no_unwind
{
    assert(word & 0xFFFF_FFFF == word % 0x1_0000_0000) by (bit_vector);
    (word & 0xFFFF_FFFF) as u32
}

} // verus!
