//! Stereo sample frames.

use vstd::prelude::*;

verus! {

use crate::fx::{FX_ONE, FX_ONE_U, sat_i64, sat_add_i64, mul_div_i64};

/// One stereo sample: a left and a right amplitude in Q32.32 fixed point,
/// where [`FX_ONE`] is full scale.
#[derive(Clone, Copy, Debug, PartialEq, Eq, Structural)]
pub struct Frame {
    pub left: i64,
    pub right: i64,
}

/// The sum of two frames, channel by channel, clamped into range.
pub open spec fn frame_add_spec(a: Frame, b: Frame) -> Frame {
    Frame { left: sat_i64(a.left + b.left) as i64, right: sat_i64(a.right + b.right) as i64 }
}

/// A frame with both channels multiplied by a fixed-point factor.
pub open spec fn frame_scaled_spec(f: Frame, v: int) -> Frame {
    Frame {
        left: sat_i64((f.left * v) / (FX_ONE as int)) as i64,
        right: sat_i64((f.right * v) / (FX_ONE as int)) as i64,
    }
}

/// A frame panned by `p` in `[0, 1]`: the left channel keeps `1 - p` of its
/// amplitude and the right channel keeps `p` (0 is hard left, 1 hard right).
pub open spec fn frame_panned_spec(f: Frame, p: int) -> Frame {
    Frame {
        left: sat_i64((f.left * (FX_ONE - p)) / (FX_ONE as int)) as i64,
        right: sat_i64((f.right * p) / (FX_ONE as int)) as i64,
    }
}

impl Frame {
    /// The silent frame.
    pub fn zero() -> (r: Frame)
        ensures
            r == (Frame { left: 0i64, right: 0i64 }),
    {
        Frame { left: 0, right: 0 }
    }

    /// A frame with the same value on both channels.
    pub fn from_mono(v: i64) -> (r: Frame)
        ensures
            r == (Frame { left: v, right: v }),
    {
        Frame { left: v, right: v }
    }

    /// Channel-wise saturating addition.
    pub fn add(self, other: Frame) -> (r: Frame)
        ensures
            r == frame_add_spec(self, other),
    {
        Frame {
            left: sat_add_i64(self.left, other.left),
            right: sat_add_i64(self.right, other.right),
        }
    }

    /// Both channels multiplied by the fixed-point factor `v`.
    pub fn scaled(self, v: i64) -> (r: Frame)
        ensures
            r == frame_scaled_spec(self, v as int),
    {
        Frame {
            left: mul_div_i64(self.left, v, FX_ONE_U),
            right: mul_div_i64(self.right, v, FX_ONE_U),
        }
    }

    /// Stereo panning: `p` is 0 for hard left, [`FX_ONE`] for hard right.
    pub fn panned(self, p: u64) -> (r: Frame)
        requires
            p <= FX_ONE_U,
        ensures
            r == frame_panned_spec(self, p as int),
    {
        Frame {
            left: mul_div_i64(self.left, FX_ONE - (p as i64), FX_ONE_U),
            right: mul_div_i64(self.right, p as i64, FX_ONE_U),
        }
    }
}

/// Adding silence changes nothing, and scaling silence yields silence.
pub proof fn lemma_frame_zero(f: Frame, v: int)
    ensures
        frame_add_spec(f, Frame { left: 0i64, right: 0i64 }) == f,
        frame_scaled_spec(Frame { left: 0i64, right: 0i64 }, v) == (Frame {
            left: 0i64,
            right: 0i64,
        }),
{
    assert(0 * v == 0) by (nonlinear_arith);
    assert(0int / (FX_ONE as int) == 0) by (nonlinear_arith)
        requires FX_ONE as int > 0;
}

} // verus!
