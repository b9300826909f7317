//! The flip-probability rule in Q32 fixed-point arithmetic.
//!
//! A probability is an integer `p` with `0 <= p <= 2^32`, standing for the
//! real number `p / 2^32`. The rule maps the neighbor counts and the
//! temperature (in micro-units, so `1_000_000` stands for `1.0`) to
//!
//! ```text
//! p_up = 1 / (1 + exp(-net / temperature)),    net = (up - down) / (up + down)
//! ```
//!
//! with `exp(-x)` realized by the integer approximation
//! `(1 - x / 2^16) ^ (2^16)`, computed as sixteen Q32 squarings. The
//! exponent magnitude is clamped to `32`; past that point the curve is
//! saturated anyway. A site with no in-bounds neighbors, and equally many
//! `Up` and `Down` neighbors in general, gets exactly one half.

use vstd::prelude::*;
use vstd::arithmetic::div_mod::lemma_div_is_ordered;
use vstd::arithmetic::div_mod::lemma_div_is_ordered_by_denominator;
use vstd::arithmetic::div_mod::lemma_div_multiples_vanish;

verus! {

/// The Q32 encoding of 1.0: probabilities range over `[0, ONE_Q32]`.
pub const ONE_Q32: u64 = 4294967296;

/// The Q32 encoding of 1/2.
pub const HALF_Q32: u64 = 2147483648;

/// The Q32 encoding of 32.0, the clamp bound on the exponent magnitude.
pub const X_MAX_Q32: u64 = 137438953472;

/// Temperature micro-units per unit: `1_000_000` stands for `1.0`.
pub const MICRO: u64 = 1000000;

/// One Q32 squaring step: the Q32 product of `v` with itself.
pub open spec fn sq_q32(v: nat) -> nat {
    (v * v) / 4294967296
}

/// `k` Q32 squarings applied to `v`.
pub open spec fn iter_sq_q32(v: nat, k: nat) -> nat
    decreases k,
{
    if k == 0 {
        v
    } else {
        iter_sq_q32(sq_q32(v), (k - 1) as nat)
    }
}

/// The Q32 approximation of `exp(-x)` for a Q32 magnitude `x <= X_MAX_Q32`:
/// `(1 - x / 2^16)` squared sixteen times.
pub open spec fn exp_neg_q32_spec(x: nat) -> nat {
    iter_sq_q32((4294967296 - x / 65536) as nat, 16)
}

/// The clamped Q32 magnitude of `net / temperature` for the given neighbor
/// counts; zero when the counts are equal (which covers a site with no
/// in-bounds neighbors at all).
pub open spec fn x_mag_q32(up: nat, down: nat, temp_micro: nat) -> nat {
    if up == down || temp_micro == 0 {
        0
    } else {
        let diff: nat = if up > down {
            (up - down) as nat
        } else {
            (down - up) as nat
        };
        let raw = (diff * 4294967296 * 1000000) / ((up + down) * temp_micro);
        if raw > 137438953472 {
            137438953472
        } else {
            raw
        }
    }
}

/// The Q32 flip probability: `1 / (1 + exp(-|x|))` when `Up` neighbors are
/// in the majority, mirrored below one half when they are in the minority.
pub open spec fn p_up_q32_spec(up: nat, down: nat, temp_micro: nat) -> nat {
    let e = exp_neg_q32_spec(x_mag_q32(up, down, temp_micro));
    let p_pos: nat = (18446744073709551616int / (4294967296int + e as int)) as nat;
    if up >= down {
        p_pos
    } else {
        (4294967296 - p_pos) as nat
    }
}

proof fn lemma_sq_q32_le_one(v: nat)
    requires
        v <= 4294967296,
    ensures
        sq_q32(v) <= 4294967296,
{
    assert(v * v <= 4294967296 * 4294967296) by (nonlinear_arith)
        requires
            v <= 4294967296,
    ;
    lemma_div_multiples_vanish(4294967296, 4294967296);
    lemma_div_is_ordered((v * v) as int, 4294967296int * 4294967296, 4294967296);
}

proof fn lemma_iter_sq_q32_fixed_one(k: nat)
    ensures
        iter_sq_q32(4294967296, k) == 4294967296,
    decreases k,
{
    if k > 0 {
        lemma_div_multiples_vanish(4294967296, 4294967296);
        assert(sq_q32(4294967296) == 4294967296);
        lemma_iter_sq_q32_fixed_one((k - 1) as nat);
    }
}

/// Law: with equally many `Up` and `Down` neighbors — in particular for a
/// site with no in-bounds neighbors at all — the flip probability is
/// exactly one half at every positive temperature.
pub proof fn lemma_balanced_probability_is_half(n: nat, temp_micro: nat)
    ensures
        p_up_q32_spec(n, n, temp_micro) == 2147483648,
{
    assert(x_mag_q32(n, n, temp_micro) == 0);
    lemma_iter_sq_q32_fixed_one(16);
    assert(exp_neg_q32_spec(0) == 4294967296);
    assert(8589934592int * 2147483648 == 18446744073709551616int);
    lemma_div_multiples_vanish(2147483648, 8589934592);
    assert(18446744073709551616int / (4294967296int + 4294967296) == 2147483648);
}

/// Law: swapping the `Up` and `Down` counts mirrors the flip probability
/// around one half; the two probabilities always sum to exactly one.
pub proof fn lemma_probability_mirrors(up: nat, down: nat, temp_micro: nat)
    ensures
        p_up_q32_spec(up, down, temp_micro) + p_up_q32_spec(down, up, temp_micro) == 4294967296,
{
    if up == down {
        lemma_balanced_probability_is_half(up, temp_micro);
    } else {
        assert(x_mag_q32(up, down, temp_micro) == x_mag_q32(down, up, temp_micro));
        let e = exp_neg_q32_spec(x_mag_q32(up, down, temp_micro));
        lemma_div_is_ordered_by_denominator(18446744073709551616, 4294967296, 4294967296 + e as int);
        assert(4294967296int * 4294967296 == 18446744073709551616int);
        lemma_div_multiples_vanish(4294967296, 4294967296);
        assert(18446744073709551616int / (4294967296int + e as int) <= 4294967296);
    }
}

/// The Q32 exponential approximation, executable form.
pub fn exp_neg_q32(x: u64) -> (r: u64)
    requires
        x <= X_MAX_Q32,
    ensures
        r == exp_neg_q32_spec(x as nat),
        r <= ONE_Q32,
{
    let t: u64 = x / 65536;
    let mut v: u64 = 4294967296u64 - t;
    let mut i: usize = 0;
    while i < 16
        invariant
            i <= 16,
            v <= 4294967296,
            iter_sq_q32(v as nat, (16 - i) as nat) == exp_neg_q32_spec(x as nat),
        decreases 16 - i,
    {
        proof {
            assert(v * v <= 4294967296 * 4294967296) by (nonlinear_arith)
                requires
                    v <= 4294967296,
            ;
        }
        let w: u128 = (v as u128) * (v as u128);
        let s: u128 = w / 4294967296;
        proof {
            lemma_sq_q32_le_one(v as nat);
        }
        v = s as u64;
        i = i + 1;
    }
    v
}

/// The flip probability, executable form: Q32 result in `[0, ONE_Q32]`.
pub fn p_up_q32(up: u32, down: u32, temp_micro: u64) -> (p: u64)
    requires
        temp_micro >= 1,
    ensures
        p == p_up_q32_spec(up as nat, down as nat, temp_micro as nat),
        p <= ONE_Q32,
{
    let diff: u64 = if up >= down {
        (up - down) as u64
    } else {
        (down - up) as u64
    };
    let x: u64 = if diff == 0 {
        0
    } else {
        let sum: u64 = (up as u64) + (down as u64);
        proof {
            assert((diff as int) * 4294967296 <= 4294967295int * 4294967296) by (nonlinear_arith)
                requires
                    diff <= 4294967295,
            ;
        }
        let num_hi: u128 = (diff as u128) * 4294967296u128;
        proof {
            assert((num_hi as int) * 1000000 <= 18446744073709551616int * 1000000)
                by (nonlinear_arith)
                requires
                    (num_hi as int) <= 18446744073709551616int,
            ;
        }
        let num: u128 = num_hi * 1000000u128;
        proof {
            assert((sum as int) * (temp_micro as int) <= 8589934590int * 18446744073709551615int)
                by (nonlinear_arith)
                requires
                    sum <= 8589934590,
                    temp_micro <= 18446744073709551615,
            ;
            assert((sum as int) * (temp_micro as int) >= 1) by (nonlinear_arith)
                requires
                    sum >= 1,
                    temp_micro >= 1,
            ;
        }
        let den: u128 = (sum as u128) * (temp_micro as u128);
        let raw: u128 = num / den;
        if raw > 137438953472 {
            137438953472u64
        } else {
            raw as u64
        }
    };
    let e: u64 = exp_neg_q32(x);
    let denom: u128 = 4294967296u128 + (e as u128);
    let p_pos_wide: u128 = 18446744073709551616u128 / denom;
    proof {
        lemma_div_is_ordered_by_denominator(18446744073709551616, 4294967296, denom as int);
        assert(4294967296int * 4294967296 == 18446744073709551616int);
        lemma_div_multiples_vanish(4294967296, 4294967296);
        assert(18446744073709551616int / 4294967296 == 4294967296);
    }
    let p_pos: u64 = p_pos_wide as u64;
    if up >= down {
        p_pos
    } else {
        4294967296u64 - p_pos
    }
}

} // verus!
