//! Exact single-precision bit patterns of unsigned integers.
//!
//! Device uniforms carry small integer quantities (viewport extents, pixel
//! coordinates) as IEEE-754 binary32 values. The encoding below is the
//! round-to-nearest-even conversion of an unsigned 32-bit integer, computed
//! on integers so that the bit pattern itself is specified and proved.

use vstd::prelude::*;

verus! {

/// `2^n`.
pub open spec fn pow2(n: nat) -> nat
    decreases n,
{
    if n == 0 {
        1
    } else {
        2 * pow2((n - 1) as nat)
    }
}

/// Index of the most significant set bit of a positive integer.
pub open spec fn floor_log2(x: nat) -> nat
    decreases x,
{
    if x < 2 {
        0
    } else {
        1 + floor_log2(x / 2)
    }
}

/// `x / d` rounded to the nearest integer, ties to even.
pub open spec fn div_round_half_even(x: nat, d: nat) -> nat {
    let q = x / d;
    let r = x % d;
    if 2 * r > d || (2 * r == d && q % 2 == 1) {
        q + 1
    } else {
        q
    }
}

/// The 24-bit significand (implicit bit included) of `x` once rounded to
/// binary32, scaled so that `x ~= significand * 2^(floor_log2(x) - 23)`.
/// Rounding may carry into `2^24`.
pub open spec fn f32_significand(x: nat) -> nat {
    let e = floor_log2(x);
    if e <= 23 {
        x * pow2((23 - e) as nat)
    } else {
        div_round_half_even(x, pow2((e - 23) as nat))
    }
}

/// Binary32 bit pattern of the unsigned integer `x`: biased exponent
/// `floor_log2(x) + 127` and the rounded significand without its implicit bit
/// (a carry out of the significand lands in the exponent field).
pub open spec fn f32_bits_of_u32(x: u32) -> u32 {
    if x == 0 {
        0
    } else {
        ((floor_log2(x as nat) + 127) * pow2(23) + f32_significand(x as nat) - pow2(23)) as u32
    }
}

pub proof fn lemma_pow2_positive(n: nat)
    ensures
        pow2(n) >= 1,
    decreases n,
{
    if n > 0 {
        lemma_pow2_positive((n - 1) as nat);
    }
}

pub proof fn lemma_pow2_add(a: nat, b: nat)
    ensures
        pow2(a + b) == pow2(a) * pow2(b),
    decreases a,
{
    if a > 0 {
        lemma_pow2_add((a - 1) as nat, b);
        assert(pow2(a + b) == 2 * pow2((a - 1 + b) as nat));
        assert(2 * (pow2((a - 1) as nat) * pow2(b)) == (2 * pow2((a - 1) as nat)) * pow2(b))
            by (nonlinear_arith);
        assert(pow2(a) == 2 * pow2((a - 1) as nat));
    } else {
        assert(pow2(a) == 1);
        assert(a + b == b);
    }
}

pub proof fn lemma_pow2_monotone(a: nat, b: nat)
    requires
        a <= b,
    ensures
        pow2(a) <= pow2(b),
    decreases b,
{
    if a < b {
        lemma_pow2_monotone(a, (b - 1) as nat);
        lemma_pow2_positive((b - 1) as nat);
    }
}

/// The most significant set bit brackets the value.
pub proof fn lemma_floor_log2_bounds(x: nat)
    requires
        x >= 1,
    ensures
        pow2(floor_log2(x)) <= x < pow2(floor_log2(x) + 1),
    decreases x,
{
    if x >= 2 {
        lemma_floor_log2_bounds(x / 2);
        assert(floor_log2(x) == 1 + floor_log2(x / 2));
        assert(pow2(floor_log2(x)) == 2 * pow2(floor_log2(x / 2)));
        assert(pow2(floor_log2(x) + 1) == 2 * pow2(floor_log2(x / 2) + 1));
    }
}

pub proof fn lemma_pow2_small()
    ensures
        pow2(23) == 0x80_0000,
        pow2(24) == 0x100_0000,
        pow2(32) == 0x1_0000_0000,
{
    reveal_with_fuel(pow2, 33);
}

pub proof fn lemma_pow2_63()
    ensures
        pow2(63) == 0x8000_0000_0000_0000,
{
    lemma_pow2_small();
    lemma_pow2_add(32, 31);
    lemma_pow2_add(24, 7);
    reveal_with_fuel(pow2, 8);
}

/// `2^n` as an exact machine integer.
fn pow2_u64(n: u32) -> (p: u64)
    requires
        n <= 63,
    ensures
        p == pow2(n as nat),
{
    let mut p: u64 = 1;
    let mut i: u32 = 0;
    while i < n
        invariant
            i <= n <= 63,
            p == pow2(i as nat),
        decreases n - i,
    {
        proof {
            lemma_pow2_monotone((i + 1) as nat, 63);
            lemma_pow2_63();
        }
        p = p * 2;
        i = i + 1;
    }
    p
}

/// The binary32 bit pattern of `x as f32`.
pub fn u32_to_f32_bits(x: u32) -> (bits: u32)
    ensures
        bits == f32_bits_of_u32(x),
{
    if x == 0 {
        return 0;
    }
    let mut t = x;
    let mut e: u32 = 0;
    while t >= 2
        invariant
            1 <= t <= x,
            e + t <= x + 1,
            floor_log2(x as nat) == e + floor_log2(t as nat),
        decreases t,
    {
        t = t / 2;
        e = e + 1;
    }
    proof {
        lemma_floor_log2_bounds(x as nat);
        assert(floor_log2(x as nat) == e);
        if e >= 32 {
            lemma_pow2_monotone(32, e as nat);
        }
        lemma_pow2_small();
    }
    let ghost ex = e as nat;
    let significand: u64;
    if e <= 23 {
        let p = pow2_u64(23 - e);
        proof {
            lemma_pow2_positive((23 - e) as nat);
            lemma_pow2_add((23 - e) as nat, ex + 1);
            assert((23 - ex) as nat + (ex + 1) == 24);
            assert((x as nat) * pow2((23 - e) as nat) < pow2(24)) by (nonlinear_arith)
                requires
                    (x as nat) < pow2(ex + 1),
                    pow2(24) == pow2((23 - e) as nat) * pow2(ex + 1),
                    pow2((23 - e) as nat) >= 1,
            {
            }
            lemma_pow2_positive((23 - e) as nat);
        }
        significand = x as u64 * p;
    } else {
        let p = pow2_u64(e - 23);
        proof {
            lemma_pow2_positive((e - 23) as nat);
            lemma_pow2_add(24, (e - 23) as nat);
            assert(24 + (e - 23) as nat == ex + 1);
            assert((x as nat) / pow2((e - 23) as nat) < pow2(24)) by (nonlinear_arith)
                requires
                    (x as nat) < pow2(24) * pow2((e - 23) as nat),
                    pow2((e - 23) as nat) >= 1,
            {
            }
        }
        let q = x as u64 / p;
        let r = x as u64 % p;
        if 2 * r > p || (2 * r == p && q % 2 == 1) {
            significand = q + 1;
        } else {
            significand = q;
        }
    }
    let wide = (e as u64 + 127) * 0x80_0000 + significand - 0x80_0000;
    wide as u32
}

} // verus!
