//! The biased-step engine: a mean-reverting random walk primitive shared by
//! physical movement (toward home) and severity progression (toward a peak
//! target). One step is -1, 0 or +1. A band is centred on the target: beyond
//! the band the step pulls straight back; inside it, a weighted coin leans
//! toward whichever side reduces the distance to the target.

use vstd::prelude::*;
use crate::rng::{rand_below, rand_ratio};

verus! {

/// Bound on `target` accepted by `rand_step`, so that `target + band/2`
/// cannot overflow an `i32`.
pub const TARGET_LIMIT: i32 = 1000000000;

/// Bound on `band` accepted by `rand_step`.
pub const BAND_LIMIT: u32 = 1000000;

/// The step outcome as a function of the two draws: `roll` (a die in `0..3`;
/// two faces out of three mean "do not move") and `up` (the in-band
/// direction coin).
pub open spec fn step_value(x: int, target: int, band: int, roll: int, up: bool) -> int {
    if band == 0 || roll <= 1 {
        0
    } else if x > target + band / 2 {
        -1
    } else if x < target - band / 2 {
        1
    } else if up {
        1
    } else {
        -1
    }
}

/// The weight (out of `band`) with which an in-band walker steps up: the
/// distance from the top edge of the band. The nearer the walker stands to
/// the top edge, the smaller the weight.
pub open spec fn up_weight(x: int, target: int, band: int) -> int {
    target + band / 2 - x
}

/// The executable in-band weight, handed by `rand_step` to the ratio draw.
pub fn up_weight_exec(x: i32, target: i32, band: u32) -> (w: u32)
    requires
        -TARGET_LIMIT <= target <= TARGET_LIMIT,
        1 <= band <= BAND_LIMIT,
        target - band / 2 <= x <= target + band / 2,
    ensures
        w as int == up_weight(x as int, target as int, band as int),
        w <= band,
{
    let half: i32 = (band / 2) as i32;
    let w: i64 = (target as i64) + (half as i64) - (x as i64);
    w as u32
}

/// One biased step. Returns only -1, 0 or +1; with `band == 0` it always
/// returns 0; beyond the band it never walks further out. Which of the
/// admissible values comes back depends on the draws.
pub fn rand_step(x: i32, target: i32, band: u32) -> (r: i32)
    requires
        -TARGET_LIMIT <= target <= TARGET_LIMIT,
        band <= BAND_LIMIT,
    ensures
        -1 <= r <= 1,
        band == 0 ==> r == 0,
        x > target + band / 2 ==> r <= 0,
        x < target - band / 2 ==> r >= 0,
        exists|roll: int, up: bool|
            0 <= roll < 3 && r == step_value(x as int, target as int, band as int, roll, up),
{
    let roll = rand_below(3);
    if band == 0 || roll <= 1 {
        proof {
            assert(step_value(x as int, target as int, band as int, roll as int, true) == 0);
        }
        return 0;
    }
    let half: i32 = (band / 2) as i32;
    if x > target + half {
        proof {
            assert(step_value(x as int, target as int, band as int, 2, true) == -1);
        }
        return -1;
    }
    if x < target - half {
        proof {
            assert(step_value(x as int, target as int, band as int, 2, true) == 1);
        }
        return 1;
    }
    let w = up_weight_exec(x, target, band);
    if rand_ratio(w, band) {
        proof {
            assert(step_value(x as int, target as int, band as int, 2, true) == 1);
        }
        1
    } else {
        proof {
            assert(step_value(x as int, target as int, band as int, 2, false) == -1);
        }
        -1
    }
}

/// Law: inside an even band the upward weight is symmetric — reflecting the
/// walker around the target complements the weight to the full band, so at
/// `x == target` the chances of stepping up and down are equal.
pub proof fn lemma_up_weight_symmetry(x: int, target: int, band: int)
    requires
        band >= 0,
        band % 2 == 0,
        target - band / 2 <= x <= target + band / 2,
    ensures
        up_weight(x, target, band) + up_weight(2 * target - x, target, band) == band,
        x == target ==> 2 * up_weight(x, target, band) == band,
{
}

} // verus!
