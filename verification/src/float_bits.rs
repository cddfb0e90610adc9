//! Binary64 numbers held by their bit patterns: conversion of integers to the
//! nearest binary64 value and the equality that `==` on binary64 values obeys.
use vstd::prelude::*;

verus! {

/// Two to the power `n`.
pub open spec fn two_pow(n: nat) -> nat
    decreases n,
{
    if n == 0 {
        1
    } else {
        2 * two_pow((n - 1) as nat)
    }
}

pub proof fn lemma_two_pow_mono(a: nat, b: nat)
    requires
        a <= b,
    ensures
        two_pow(a) <= two_pow(b),
        a < b ==> two_pow(a) < two_pow(b),
    decreases b,
{
    if a < b {
        lemma_two_pow_mono(a, (b - 1) as nat);
        lemma_two_pow_pos((b - 1) as nat);
    }
}

pub proof fn lemma_two_pow_pos(n: nat)
    ensures
        two_pow(n) >= 1,
    decreases n,
{
    if n > 0 {
        lemma_two_pow_pos((n - 1) as nat);
    }
}

pub proof fn lemma_two_pow_add(a: nat, b: nat)
    ensures
        two_pow(a + b) == two_pow(a) * two_pow(b),
    decreases b,
{
    if b > 0 {
        lemma_two_pow_add(a, (b - 1) as nat);
        let x = two_pow(a);
        let y = two_pow((b - 1) as nat);
        assert((a + b - 1) as nat == a + ((b - 1) as nat));
        let z = two_pow((a + b - 1) as nat);
        assert(z == x * y);
        assert(two_pow(a + b) == 2 * z);
        assert(two_pow(b) == 2 * y);
        assert(x * (2 * y) == 2 * (x * y)) by (nonlinear_arith);
        assert(x * two_pow(b) == x * (2 * y));
        assert(two_pow(a + b) == x * two_pow(b));
    } else {
        assert(a + b == a);
        assert(two_pow(b) == 1);
        assert(two_pow(a) * two_pow(b) == two_pow(a));
    }
}

/// The fraction unit of a binary64 pattern: one step of the biased exponent.
pub open spec fn fraction_unit() -> nat {
    0x10_0000_0000_0000
}

/// The sign bit of a binary64 pattern.
pub open spec fn sign_bit() -> nat {
    0x8000_0000_0000_0000
}

/// `k` is the position of the highest set bit of `u`.
pub open spec fn is_top_bit(u: nat, k: nat) -> bool {
    two_pow(k) <= u < two_pow(k + 1)
}

/// The position of the highest set bit of a positive `u`.
pub open spec fn top_bit(u: nat) -> nat {
    choose|k: nat| is_top_bit(u, k)
}

/// The pattern of a positive binary64 number with biased exponent `e` and
/// significand `m` (its leading one included), `m` in [2^52, 2^53).
pub open spec fn pack(e: nat, m: nat) -> nat {
    (e * fraction_unit() + (m - fraction_unit())) as nat
}

/// `q` rounded by its dropped remainder `r` out of `d`: to nearest, ties to even.
pub open spec fn round_half_even(q: nat, r: nat, d: nat) -> nat {
    if r * 2 > d || (r * 2 == d && q % 2 == 1) {
        q + 1
    } else {
        q
    }
}

/// The pattern of the binary64 value nearest to the natural number `u`
/// (ties to even), for `u` below 2^64: what `u as f64` gives.
pub open spec fn nat_to_f64_bits(u: nat) -> nat {
    if u == 0 {
        0
    } else {
        let k = top_bit(u);
        if k <= 52 {
            pack(k + 1023, u * two_pow((52 - k) as nat))
        } else {
            let d = two_pow((k - 52) as nat);
            let q = round_half_even(u / d, u % d, d);
            if q == two_pow(53) {
                pack(k + 1024, fraction_unit())
            } else {
                pack(k + 1023, q)
            }
        }
    }
}

/// The pattern with the sign bit flipped on: the negation of a positive value.
pub open spec fn negated(bits: nat) -> nat {
    if bits == 0 {
        sign_bit()
    } else {
        bits + sign_bit()
    }
}

/// The magnitude part of a pattern: all but the sign bit.
pub open spec fn magnitude(bits: u64) -> nat {
    (bits as nat) % sign_bit()
}

/// The pattern is a NaN.
pub open spec fn is_nan_bits(bits: u64) -> bool {
    magnitude(bits) > 0x7FF0_0000_0000_0000
}

/// The pattern is an infinity.
pub open spec fn is_infinite_bits(bits: u64) -> bool {
    magnitude(bits) == 0x7FF0_0000_0000_0000
}

/// Binary64 `==`: NaN equals nothing, the two zeros are equal, and otherwise
/// equal values have equal patterns.
pub open spec fn f64_bits_eq(a: u64, b: u64) -> bool {
    !is_nan_bits(a) && !is_nan_bits(b) && (a == b || (magnitude(a) == 0 && magnitude(b) == 0))
}

/// The powers of two that the conversion works with.
pub proof fn lemma_two_pow_values()
    ensures
        two_pow(11) == 2048,
        two_pow(52) == 0x10_0000_0000_0000,
        two_pow(53) == 0x20_0000_0000_0000,
        two_pow(63) == 0x8000_0000_0000_0000,
        two_pow(64) == 0x1_0000_0000_0000_0000,
{
    reveal_with_fuel(two_pow, 5);
    assert(two_pow(3) == 8);
    assert(two_pow(4) == 16);
    lemma_two_pow_add(4, 4);
    assert(two_pow(8) == 256);
    lemma_two_pow_add(8, 3);
    assert(two_pow(11) == 2048);
    lemma_two_pow_add(8, 8);
    assert(two_pow(16) == 0x1_0000);
    lemma_two_pow_add(16, 16);
    assert(two_pow(32) == 0x1_0000_0000);
    lemma_two_pow_add(32, 16);
    assert(two_pow(48) == 0x1_0000_0000_0000);
    lemma_two_pow_add(48, 4);
    assert(two_pow(52) == 0x10_0000_0000_0000);
    lemma_two_pow_add(52, 1);
    assert(two_pow(53) == 0x20_0000_0000_0000);
    lemma_two_pow_add(4, 3);
    assert(two_pow(7) == 128);
    lemma_two_pow_add(8, 7);
    assert(two_pow(15) == 0x8000);
    lemma_two_pow_add(16, 15);
    assert(two_pow(31) == 0x8000_0000);
    lemma_two_pow_add(32, 31);
    assert(two_pow(63) == 0x8000_0000_0000_0000);
    lemma_two_pow_add(63, 1);
}

proof fn lemma_top_bit_unique(u: nat, k: nat)
    requires
        is_top_bit(u, k),
    ensures
        top_bit(u) == k,
{
    let j = top_bit(u);
    assert(is_top_bit(u, j));
    if j < k {
        lemma_two_pow_mono(j + 1, k);
    } else if k < j {
        lemma_two_pow_mono(k + 1, j);
    }
}

/// The pattern of the binary64 value nearest to `u`.
pub fn u64_to_f64_bits(u: u64) -> (r: u64)
    ensures
        r == nat_to_f64_bits(u as nat),
{
    if u == 0 {
        return 0;
    }
    let mut k: u64 = 0;
    let mut p: u64 = 1;
    while p <= u / 2
        invariant
            1 <= p <= u,
            p == two_pow(k as nat),
            k <= 63,
        decreases u - p,
    {
        proof {
            if k >= 63 {
                lemma_two_pow_mono(63, k as nat);
                lemma_two_pow_values();
            }
        }
        p = p * 2;
        k = k + 1;
    }
    assert(is_top_bit(u as nat, k as nat));
    proof {
        lemma_top_bit_unique(u as nat, k as nat);
        lemma_two_pow_values();
    }
    if k <= 52 {
        let mut m: u64 = u;
        let mut j: u64 = k;
        assert(two_pow(0) == 1);
        assert((j - k) as nat == 0);
        assert(m == u * two_pow((j - k) as nat));
        while j < 52
            invariant
                k <= j <= 52,
                m == u * two_pow((j - k) as nat),
                two_pow(j as nat) <= m < two_pow((j + 1) as nat),
                two_pow(53) == 0x20_0000_0000_0000,
            decreases 52 - j,
        {
            proof {
                lemma_two_pow_mono((j + 1) as nat, 53);
                assert(two_pow((j + 1 - k) as nat) == 2 * two_pow((j - k) as nat));
                assert(u * (2 * two_pow((j - k) as nat)) == 2 * (u * two_pow((j - k) as nat)))
                    by (nonlinear_arith);
                assert(two_pow((j + 2) as nat) == 2 * two_pow((j + 1) as nat));
                assert(two_pow((j + 1) as nat) == 2 * two_pow(j as nat));
            }
            m = m * 2;
            j = j + 1;
        }
        (k + 1023) * 0x10_0000_0000_0000 + (m - 0x10_0000_0000_0000)
    } else {
        let s: u64 = k - 52;
        let mut d: u64 = 1;
        let mut i: u64 = 0;
        while i < s
            invariant
                i <= s,
                s == k - 52,
                k <= 63,
                d == two_pow(i as nat),
            decreases s - i,
        {
            proof {
                lemma_two_pow_mono((i + 1) as nat, 11);
                lemma_two_pow_values();
            }
            d = d * 2;
            i = i + 1;
        }
        proof {
            lemma_two_pow_pos(s as nat);
        }
        let q = u / d;
        let rem = u % d;
        proof {
            lemma_two_pow_add(52, s as nat);
            lemma_two_pow_add(53, s as nat);
            assert(two_pow((k + 1) as nat) == two_pow(53) * d);
            assert(two_pow(k as nat) == two_pow(52) * d);
            assert(two_pow(52) * d <= u);
            assert(u < two_pow(53) * d);
            assert(q >= two_pow(52)) by (nonlinear_arith)
                requires
                    q == u / d,
                    two_pow(52) * d <= u,
                    d > 0,
            ;
            assert(q < two_pow(53)) by (nonlinear_arith)
                requires
                    q == u / d,
                    u < two_pow(53) * d,
                    d > 0,
            ;
        }
        let rounded: u64 = if rem > d - rem || (rem == d - rem && q % 2 == 1) {
            q + 1
        } else {
            q
        };
        assert(rounded == round_half_even(q as nat, rem as nat, d as nat));
        if rounded == 0x20_0000_0000_0000 {
            (k + 1024) * 0x10_0000_0000_0000
        } else {
            (k + 1023) * 0x10_0000_0000_0000 + (rounded - 0x10_0000_0000_0000)
        }
    }
}

/// The pattern of the binary64 value nearest to `i`.
pub fn i64_to_f64_bits(i: i64) -> (r: u64)
    ensures
        i >= 0 ==> r == nat_to_f64_bits(i as nat),
        i < 0 ==> r == negated(nat_to_f64_bits((-i) as nat)),
{
    if i >= 0 {
        u64_to_f64_bits(i as u64)
    } else {
        let a: u64 = if i == i64::MIN {
            0x8000_0000_0000_0000
        } else {
            (-i) as u64
        };
        let b = u64_to_f64_bits(a);
        proof {
            lemma_bits_below_sign(a as nat);
        }
        if b == 0 {
            0x8000_0000_0000_0000
        } else {
            b + 0x8000_0000_0000_0000
        }
    }
}

proof fn lemma_bits_below_sign(u: nat)
    requires
        u < 0x1_0000_0000_0000_0000,
    ensures
        nat_to_f64_bits(u) < sign_bit(),
{
    if u > 0 {
        lemma_top_bit_exists(u);
        let k = top_bit(u);
        assert(is_top_bit(u, k));
        if k > 63 {
            lemma_two_pow_mono(64, k);
        }
        lemma_two_pow_values();
        if k <= 52 {
            lemma_two_pow_add(k, (52 - k) as nat);
            assert(u * two_pow((52 - k) as nat) < two_pow(53)) by (nonlinear_arith)
                requires
                    u < two_pow(k + 1),
                    two_pow(53) == 2 * two_pow(52),
                    two_pow(52) == two_pow(k) * two_pow((52 - k) as nat),
                    two_pow(k + 1) == 2 * two_pow(k),
                    two_pow((52 - k) as nat) >= 1,
            {
            }
            lemma_two_pow_pos((52 - k) as nat);
        } else {
            let d = two_pow((k - 52) as nat);
            lemma_two_pow_pos((k - 52) as nat);
            lemma_two_pow_add(53, (k - 52) as nat);
            assert(u / d < two_pow(53)) by (nonlinear_arith)
                requires
                    u < two_pow(53) * d,
                    d > 0,
            ;
        }
    }
}

proof fn lemma_top_bit_exists(u: nat)
    requires
        u >= 1,
    ensures
        exists|k: nat| is_top_bit(u, k),
    decreases u,
{
    if u == 1 {
        assert(is_top_bit(1, 0));
    } else {
        let h = u / 2;
        lemma_top_bit_exists(h);
        let j = choose|k: nat| is_top_bit(h, k);
        assert(is_top_bit(u, j + 1));
    }
}

/// Binary64 `==` on two patterns.
pub fn f64_bits_equal(a: u64, b: u64) -> (r: bool)
    ensures
        r == f64_bits_eq(a, b),
{
    let ma = a % 0x8000_0000_0000_0000;
    let mb = b % 0x8000_0000_0000_0000;
    if ma > 0x7FF0_0000_0000_0000 || mb > 0x7FF0_0000_0000_0000 {
        return false;
    }
    a == b || (ma == 0 && mb == 0)
}

} // verus!
