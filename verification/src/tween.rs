//! Eased transitions between scalar values.

use vstd::prelude::*;

verus! {

use crate::fx::{
    FX_ONE, FX_ONE_U, fx_pow, fx_powi, lemma_fx_pow_bounds, lemma_fx_pow_monotone,
};
use vstd::arithmetic::div_mod::lemma_div_is_ordered;

/// Half of full scale, the midpoint of an in-out easing curve.
pub const FX_HALF_U: u64 = 0x8000_0000;

/// An easing curve mapping a normalized progress in `[0, 1]` to an eased
/// progress in `[0, 1]`.
#[derive(Clone, Copy, Debug, PartialEq, Eq, Structural)]
pub enum Easing {
    /// The identity curve.
    Linear,
    /// `t^i`: slow start, fast finish.
    InPowi(u32),
    /// `1 - (1 - t)^i`: fast start, slow finish.
    OutPowi(u32),
    /// `InPowi` up to the midpoint, mirrored `OutPowi` after it.
    InOutPowi(u32),
}

/// The value of an easing curve at progress `t` (fixed point, `[0, FX_ONE]`).
pub open spec fn ease_spec(e: Easing, t: int) -> int {
    match e {
        Easing::Linear => t,
        Easing::InPowi(i) => fx_pow(t, i as nat),
        Easing::OutPowi(i) => FX_ONE - fx_pow(FX_ONE - t, i as nat),
        Easing::InOutPowi(i) => if t < FX_HALF_U {
            fx_pow(2 * t, i as nat) / 2
        } else {
            FX_ONE - fx_pow(2 * (FX_ONE - t), i as nat) / 2
        },
    }
}

/// An eased progress stays in `[0, 1]`.
pub proof fn lemma_ease_bounds(e: Easing, t: int)
    requires
        0 <= t <= FX_ONE,
    ensures
        0 <= ease_spec(e, t) <= FX_ONE,
{
    match e {
        Easing::Linear => {},
        Easing::InPowi(i) => {
            lemma_fx_pow_bounds(t, i as nat);
        },
        Easing::OutPowi(i) => {
            lemma_fx_pow_bounds(FX_ONE - t, i as nat);
        },
        Easing::InOutPowi(i) => {
            if t < FX_HALF_U {
                lemma_fx_pow_bounds(2 * t, i as nat);
                lemma_div_is_ordered(0, fx_pow(2 * t, i as nat), 2);
                lemma_div_is_ordered(fx_pow(2 * t, i as nat), FX_ONE as int, 2);
                assert((FX_ONE as int) / 2 == FX_HALF_U as int) by (nonlinear_arith);
                assert(0int / 2 == 0) by (nonlinear_arith);
            } else {
                lemma_fx_pow_bounds(2 * (FX_ONE - t), i as nat);
                lemma_div_is_ordered(0, fx_pow(2 * (FX_ONE - t), i as nat), 2);
                lemma_div_is_ordered(fx_pow(2 * (FX_ONE - t), i as nat), FX_ONE as int, 2);
                assert((FX_ONE as int) / 2 == FX_HALF_U as int) by (nonlinear_arith);
                assert(0int / 2 == 0) by (nonlinear_arith);
            }
        },
    }
}

/// Every easing curve is monotone over `[0, 1]`.
pub proof fn lemma_ease_monotone(e: Easing, t1: int, t2: int)
    requires
        0 <= t1 <= t2 <= FX_ONE,
    ensures
        ease_spec(e, t1) <= ease_spec(e, t2),
{
    match e {
        Easing::Linear => {},
        Easing::InPowi(i) => {
            lemma_fx_pow_monotone(t1, t2, i as nat);
        },
        Easing::OutPowi(i) => {
            lemma_fx_pow_monotone(FX_ONE - t2, FX_ONE - t1, i as nat);
        },
        Easing::InOutPowi(i) => {
            lemma_ease_bounds(e, t1);
            lemma_ease_bounds(e, t2);
            if t2 < FX_HALF_U {
                lemma_fx_pow_monotone(2 * t1, 2 * t2, i as nat);
                lemma_div_is_ordered(fx_pow(2 * t1, i as nat), fx_pow(2 * t2, i as nat), 2);
            } else if t1 >= FX_HALF_U {
                lemma_fx_pow_monotone(2 * (FX_ONE - t2), 2 * (FX_ONE - t1), i as nat);
                lemma_div_is_ordered(
                    fx_pow(2 * (FX_ONE - t2), i as nat),
                    fx_pow(2 * (FX_ONE - t1), i as nat),
                    2,
                );
            } else {
                lemma_fx_pow_bounds(2 * t1, i as nat);
                lemma_fx_pow_bounds(2 * (FX_ONE - t2), i as nat);
                lemma_div_is_ordered(fx_pow(2 * t1, i as nat), FX_ONE as int, 2);
                lemma_div_is_ordered(fx_pow(2 * (FX_ONE - t2), i as nat), FX_ONE as int, 2);
                assert((FX_ONE as int) / 2 == FX_HALF_U as int) by (nonlinear_arith);
            }
        },
    }
}

/// Evaluate an easing curve at a fixed-point progress in `[0, 1]`.
pub fn ease(e: Easing, t: u64) -> (r: u64)
    requires
        t <= FX_ONE_U,
    ensures
        r == ease_spec(e, t as int),
        r <= FX_ONE_U,
{
    proof {
        lemma_ease_bounds(e, t as int);
    }
    match e {
        Easing::Linear => t,
        Easing::InPowi(i) => fx_powi(t, i),
        Easing::OutPowi(i) => {
            proof {
                lemma_fx_pow_bounds(FX_ONE - t as int, i as nat);
            }
            FX_ONE_U - fx_powi(FX_ONE_U - t, i)
        },
        Easing::InOutPowi(i) => {
            if t < FX_HALF_U {
                fx_powi(2 * t, i) / 2
            } else {
                proof {
                    lemma_fx_pow_bounds(2 * (FX_ONE as int - t as int), i as nat);
                    lemma_div_is_ordered(
                        fx_pow(2 * (FX_ONE as int - t as int), i as nat),
                        FX_ONE as int,
                        2,
                    );
                    assert((FX_ONE as int) / 2 == FX_HALF_U as int) by (nonlinear_arith);
                    assert(0int / 2 == 0) by (nonlinear_arith);
                }
                FX_ONE_U - fx_powi(2 * (FX_ONE_U - t), i) / 2
            }
        },
    }
}

/// A request to move a value to a target over `duration` output frames,
/// shaped by an easing curve.
#[derive(Clone, Copy, Debug, PartialEq, Eq, Structural)]
pub struct Tween {
    /// How many output frames the transition takes.
    pub duration: u64,
    /// The shape of the transition.
    pub easing: Easing,
}

impl Tween {
    /// A linear tween over the given number of output frames.
    pub fn linear(duration: u64) -> (r: Tween)
        ensures
            r == (Tween { duration, easing: Easing::Linear }),
    {
        Tween { duration, easing: Easing::Linear }
    }
}

} // verus!
