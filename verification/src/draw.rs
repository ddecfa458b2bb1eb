//! The one source of randomness the suppliers rely on — a bounded uniform
//! draw taken from the calling thread's own generator, so no lock is shared
//! between workers — and the fixed-point inverse-CDF transform that turns
//! such a draw into a negative-exponential delay.

use vstd::prelude::*;
use vstd::arithmetic::power2::pow2;

verus! {

/// Largest mean (in the caller's time unit) the exponential transform
/// accepts; keeps the scaled product inside `u64`.
pub const MAX_EXP_MEAN: u64 = 0x0100_0000_0000_0000;

/// Relies on rand's `Rng::gen_range` over `0..bound` on `thread_rng`: a
/// uniformly distributed value below `bound`.  The range is non-empty, so
/// the call cannot panic; nothing more can be promised of a random value.
#[verifier::external_body]
pub fn rand_below(bound: u64) -> (r: u64)
    requires
        bound >= 1,
    ensures
        r < bound,
{
    rand::Rng::gen_range(&mut rand::thread_rng(), 0..bound)
}

/// Doublings needed to bring `k` into `[2^31, 2^32)`; zero for `k = 0`.
pub open spec fn width_of(k: nat) -> nat
    decreases (if k >= 0x8000_0000 {
        0int
    } else {
        0x8000_0000 - k
    }),
{
    if k == 0 || k >= 0x8000_0000 {
        0
    } else {
        1 + width_of(2 * k)
    }
}

/// `k` normalised into `[2^31, 2^32)` by doubling.
pub open spec fn mantissa_of(k: nat) -> nat {
    k * pow2(width_of(k))
}

/// The fractional bits of `log2` of a mantissa in `[2^31, 2^32)`, produced
/// most significant first by repeated squaring, `rounds` bits in all.
pub open spec fn frac_bits(m: nat, rounds: nat) -> nat
    decreases rounds,
{
    if rounds == 0 {
        0
    } else {
        let sq = (m * m) / 0x8000_0000;
        if sq >= 0x1_0000_0000 {
            pow2((rounds - 1) as nat) + frac_bits(sq / 2, (rounds - 1) as nat)
        } else {
            frac_bits(sq, (rounds - 1) as nat)
        }
    }
}

/// `log2(2^32 / k)` in units of `1 / 65536`, for `1 <= k < 2^32`.
pub open spec fn log2_inv_scaled(k: nat) -> int {
    (width_of(k) + 1) * 65536 - frac_bits(mantissa_of(k), 16)
}

/// The exponential delay assigned to the uniform draw `k` out of `2^32`:
/// `mean * ln(2^32 / k)`, computed as `log2` in `1/65536` units times
/// `ln 2` in `1/65536` units (45426), truncated toward zero.
pub open spec fn neg_exp_value(mean: nat, k: nat) -> int {
    (mean * log2_inv_scaled(k) * 45426) / 0x1_0000_0000
}

/// Turns the uniform draw `k` (of `2^32`, zero excluded) into the
/// negative-exponential delay with the given mean, exactly as
/// `neg_exp_value` states it.
pub fn neg_exp_from_draw(mean: u64, k: u64) -> (r: u64)
    requires
        1 <= k < 0x1_0000_0000,
        mean <= MAX_EXP_MEAN,
    ensures
        r == neg_exp_value(mean as nat, k as nat),
{
    // Normalise k into [2^31, 2^32).
    let mut x: u64 = k;
    let mut w: u64 = 0;
    proof {
        vstd::arithmetic::power2::lemma2_to64();
    }
    while x < 0x8000_0000
        invariant
            1 <= x < 0x1_0000_0000,
            x == k * pow2(w as nat),
            pow2(w as nat) <= x,
            width_of(k as nat) == w + width_of(x as nat),
        decreases 0x1_0000_0000 - x,
    {
        proof {
            vstd::arithmetic::power2::lemma2_to64();
            if w >= 31 {
                if w > 31 {
                    vstd::arithmetic::power2::lemma_pow2_strictly_increases(31, w as nat);
                }
                assert(false);
            }
            vstd::arithmetic::power2::lemma_pow2_unfold((w + 1) as nat);
            assert(k * pow2((w + 1) as nat) == 2 * (k * pow2(w as nat))) by (nonlinear_arith)
                requires
                    pow2((w + 1) as nat) == 2 * pow2(w as nat),
            ;
        }
        x = x * 2;
        w = w + 1;
    }
    proof {
        vstd::arithmetic::power2::lemma2_to64();
        assert(width_of(x as nat) == 0);
        assert(width_of(k as nat) == w);
        assert(mantissa_of(k as nat) == x);
        assert(w <= 31) by {
            if w >= 32 {
                if w > 32 {
                    vstd::arithmetic::power2::lemma_pow2_strictly_increases(32, w as nat);
                }
                assert(pow2(w as nat) >= 0x1_0000_0000);
            }
        }
    }
    // Sixteen fractional bits of log2(x / 2^31), most significant first.
    let ghost m0: nat = x as nat;
    let mut frac: u64 = 0;
    let mut j: u64 = 0;
    while j < 16
        invariant
            0x8000_0000 <= x < 0x1_0000_0000,
            j <= 16,
            frac < pow2(j as nat),
            frac_bits(m0, 16) == frac * pow2((16 - j) as nat) + frac_bits(
                x as nat,
                (16 - j) as nat,
            ),
        decreases 16 - j,
    {
        proof {
            assert(x * x <= 0xFFFF_FFFF * 0xFFFF_FFFFu64) by (nonlinear_arith)
                requires
                    x <= 0xFFFF_FFFFu64,
            ;
        }
        let sq: u64 = (x * x) / 0x8000_0000;
        proof {
            assert(sq >= 0x8000_0000) by (nonlinear_arith)
                requires
                    x >= 0x8000_0000,
                    sq == (x * x) / 0x8000_0000,
            ;
            vstd::arithmetic::power2::lemma2_to64();
            if j < 15 {
                vstd::arithmetic::power2::lemma_pow2_strictly_increases(j as nat, 15);
            }
            assert(frac < 0x8000);
            vstd::arithmetic::power2::lemma_pow2_unfold(((16 - j) as nat));
            vstd::arithmetic::power2::lemma_pow2_unfold(((j + 1)) as nat);
            vstd::arithmetic::power2::lemma_pow2_pos((16 - j - 1) as nat);
            assert(frac_bits(x as nat, (16 - j) as nat) == (if (x * x) / 0x8000_0000
                >= 0x1_0000_0000 {
                pow2((16 - j - 1) as nat) + frac_bits(
                    ((((x * x) as nat) / 0x8000_0000) / 2) as nat,
                    (16 - j - 1) as nat,
                )
            } else {
                frac_bits((((x * x) as nat) / 0x8000_0000) as nat, (16 - j - 1) as nat)
            }));
        }
        if sq >= 0x1_0000_0000 {
            proof {
                assert(frac * pow2((16 - j) as nat) + pow2((16 - j - 1) as nat) == (2 * frac + 1)
                    * pow2((16 - j - 1) as nat)) by (nonlinear_arith)
                    requires
                        pow2((16 - j) as nat) == 2 * pow2((16 - j - 1) as nat),
                ;
            }
            x = sq / 2;
            frac = frac * 2 + 1;
        } else {
            proof {
                assert(frac * pow2((16 - j) as nat) == (2 * frac) * pow2((16 - j - 1) as nat))
                    by (nonlinear_arith)
                    requires
                        pow2((16 - j) as nat) == 2 * pow2((16 - j - 1) as nat),
                ;
            }
            x = sq;
            frac = frac * 2;
        }
        j = j + 1;
    }
    proof {
        assert(pow2(0) == 1 && pow2(16) == 65536) by {
            vstd::arithmetic::power2::lemma2_to64();
        }
        assert(frac_bits(x as nat, (16 - j) as nat) == 0);
        assert(pow2((16 - j) as nat) == 1);
        assert(frac * pow2((16 - j) as nat) == frac) by (nonlinear_arith)
            requires
                pow2((16 - j) as nat) == 1,
        ;
        assert(frac_bits(m0, 16) == frac);
    }
    let g: u64 = (w + 1) * 65536 - frac;
    proof {
        assert(g == log2_inv_scaled(k as nat));
        assert(1 <= g <= 32 * 65536);
    }
    proof {
        assert((mean as int) * (g as int) <= 0x0100_0000_0000_0000 * 0x20_0000) by (
        nonlinear_arith)
            requires
                mean <= 0x0100_0000_0000_0000,
                g <= 0x20_0000,
        ;
        assert((mean as int) * (g as int) * 45426 <= 0x0100_0000_0000_0000 * 0x20_0000 * 45426) by (
        nonlinear_arith)
            requires
                (mean as int) * (g as int) <= 0x0100_0000_0000_0000 * 0x20_0000,
        ;
    }
    let wide: u128 = (mean as u128) * (g as u128) * 45426;
    let t: u128 = wide / 0x1_0000_0000;
    proof {
        vstd::arithmetic::div_mod::lemma_div_is_ordered(
            wide as int,
            0x0100_0000_0000_0000int * 0x20_0000 * 45426,
            0x1_0000_0000,
        );
        assert((0x0100_0000_0000_0000 * 0x20_0000 * 45426) / 0x1_0000_0000
            < 0x1_0000_0000_0000_0000);
    }
    t as u64
}

/// Draws one negative-exponential delay around `mean`: a fresh uniform draw
/// `k` (never exactly zero as a fraction of `2^32`, which the logarithm
/// excludes) pushed through the verified transform.
pub fn neg_exp_draw(mean: u64) -> (r: u64)
    requires
        mean <= MAX_EXP_MEAN,
    ensures
        exists|k: int| 1 <= k < 0x1_0000_0000 && r == #[trigger] neg_exp_value(mean as nat, k as nat),
{
    let k = rand_below(0xFFFF_FFFF) + 1;
    let r = neg_exp_from_draw(mean, k);
    proof {
        let ghost ki: int = k as int;
        assert(1 <= ki < 0x1_0000_0000 && r == neg_exp_value(mean as nat, ki as nat));
    }
    r
}

} // verus!
