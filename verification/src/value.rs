//! Values that a setting can be bound to: a constant, a live parameter
//! through a mapping, or a random draw in a range.

use vstd::prelude::*;

verus! {

use crate::fx::{FX_ONE, FX_ONE_U, sat_i64, lerp_fx, lemma_lerp_in_range};
use crate::ids::ParameterId;
use crate::parameter::Parameters;
use crate::rng::tls_random_in;

/// A linear map from an input range onto an output range, with optional
/// clamping of the normalized position at either end.
#[derive(Clone, Copy, Debug, PartialEq, Eq, Structural)]
pub struct Mapping {
    /// The lower end of the input range, strictly below the upper end.
    pub input_low: i64,
    /// The upper end of the input range.
    pub input_high: i64,
    /// The output value reached at the lower end of the input range.
    pub output_low: i64,
    /// The output value reached at the upper end of the input range.
    pub output_high: i64,
    /// Clamp the normalized position at 0.
    pub clamp_bottom: bool,
    /// Clamp the normalized position at 1.
    pub clamp_top: bool,
}

impl Mapping {
    /// The input range is ordered.
    pub open spec fn wf(self) -> bool {
        self.input_low < self.input_high
    }

    /// The identity map on `[0, 1]`.
    pub fn identity() -> (r: Mapping)
        ensures
            r == (Mapping {
                input_low: 0i64,
                input_high: FX_ONE,
                output_low: 0i64,
                output_high: FX_ONE,
                clamp_bottom: false,
                clamp_top: false,
            }),
            r.wf(),
    {
        Mapping {
            input_low: 0,
            input_high: FX_ONE,
            output_low: 0,
            output_high: FX_ONE,
            clamp_bottom: false,
            clamp_top: false,
        }
    }
}

/// The normalized position of `input` within the mapping's input range,
/// after optional clamping.
pub open spec fn mapping_rel_spec(m: Mapping, input: int) -> int {
    let raw = ((input - m.input_low) * FX_ONE) / (m.input_high - m.input_low);
    let low = if m.clamp_bottom && raw < 0 {
        0
    } else {
        raw
    };
    if m.clamp_top && low > FX_ONE {
        FX_ONE as int
    } else {
        low
    }
}

/// The mapped value: the output range entered at the normalized position.
pub open spec fn mapping_map_spec(m: Mapping, input: int) -> int {
    sat_i64(
        m.output_low + ((m.output_high - m.output_low) * sat_i64(
            mapping_rel_spec(m, input),
        )) / (FX_ONE as int),
    )
}

impl Mapping {
    /// Map an input value through this mapping.
    pub fn map(&self, input: i64) -> (r: i64)
        requires
            self.wf(),
        ensures
            r == mapping_map_spec(*self, input as int),
    {
        let in0 = self.input_low;
        let in1 = self.input_high;
        let den_wide: i128 = (in1 as i128) - (in0 as i128);
        let den: u64 = den_wide as u64;
        let shifted: i128 = (input as i128) - (in0 as i128);
        let rel_wide = crate::fx::mul_div_i128(shifted, FX_ONE as i128, den);
        let raw: i64 = if rel_wide > i64::MAX as i128 {
            i64::MAX
        } else if rel_wide < i64::MIN as i128 {
            i64::MIN
        } else {
            rel_wide as i64
        };
        let low: i64 = if self.clamp_bottom && raw < 0 {
            0
        } else {
            raw
        };
        let rel: i64 = if self.clamp_top && low > FX_ONE {
            FX_ONE
        } else {
            low
        };
        let out0 = self.output_low;
        let out1 = self.output_high;
        let span: i128 = (out1 as i128) - (out0 as i128);
        let scaled = crate::fx::mul_div_i128(span, rel as i128, FX_ONE_U);
        match (out0 as i128).checked_add(scaled) {
            Some(sum) => {
                if sum > i64::MAX as i128 {
                    i64::MAX
                } else if sum < i64::MIN as i128 {
                    i64::MIN
                } else {
                    sum as i64
                }
            },
            None => {
                if scaled > 0 {
                    i64::MAX
                } else {
                    i64::MIN
                }
            },
        }
    }
}

/// A setting's source: fixed, tracking a parameter, or drawn at random.
#[derive(Clone, Copy, Debug, PartialEq, Eq, Structural)]
pub enum Value {
    /// A fixed value.
    Fixed(i64),
    /// The current value of a parameter, passed through a mapping.
    Parameter(ParameterId, Mapping),
    /// A value drawn uniformly between two bounds when the setting is made.
    Random(i64, i64),
}

impl Value {
    /// Any mapping in use is well-formed.
    pub open spec fn wf(self) -> bool {
        match self {
            Value::Parameter(_, m) => m.wf(),
            _ => true,
        }
    }

    /// Check well-formedness at run time, for values that crossed the
    /// command channel.
    pub fn wf_exec(&self) -> (r: bool)
        ensures
            r == self.wf(),
    {
        match self {
            Value::Parameter(_, m) => m.input_low < m.input_high,
            _ => true,
        }
    }
}

/// A `Value` together with the last concrete value it resolved to.
#[derive(Clone, Copy, Debug, PartialEq, Eq, Structural)]
pub struct CachedValue {
    pub value: Value,
    pub last_value: i64,
}

/// Rebinding a cached value to a non-random source: a fixed source
/// resolves immediately, a parameter source keeps the last value until
/// the next per-frame resolution.
pub open spec fn cached_set_spec(c: CachedValue, value: Value) -> CachedValue {
    match value {
        Value::Fixed(v) => CachedValue { value, last_value: v },
        _ => CachedValue { value, last_value: c.last_value },
    }
}

/// The deterministic part of resolving a cached value each frame: a
/// parameter source re-reads its parameter through the mapping, everything
/// else keeps the last value.
pub open spec fn cached_update_spec(c: CachedValue, params: Parameters) -> CachedValue {
    match c.value {
        Value::Parameter(id, m) => match params.idx_of_spec(id.index) {
            Some(i) => CachedValue {
                value: c.value,
                last_value: mapping_map_spec(m, params.view()[i].1.value as int) as i64,
            },
            None => c,
        },
        _ => c,
    }
}

impl CachedValue {
    /// A cached value is well-formed when its source is.
    pub open spec fn wf(self) -> bool {
        self.value.wf()
    }

    /// Bind a source, resolving it once: a fixed source to itself, a
    /// parameter source to `default` until the first update, and a random
    /// source to a draw between its bounds.
    pub fn new(value: Value, default: i64) -> (r: CachedValue)
        requires
            value.wf(),
        ensures
            r.value == value,
            r.wf(),
            match value {
                Value::Fixed(v) => r.last_value == v,
                Value::Parameter(_, _) => r.last_value == default,
                Value::Random(lo, hi) => if lo <= hi {
                    lo <= r.last_value <= hi
                } else {
                    hi <= r.last_value <= lo
                },
            },
    {
        let last_value = match value {
            Value::Fixed(v) => v,
            Value::Parameter(_, _) => default,
            Value::Random(lo, hi) => draw_between(lo, hi),
        };
        CachedValue { value, last_value }
    }

    /// Rebind the source: a fixed source takes effect at once, a random
    /// source draws afresh, and a parameter source keeps the last value
    /// until the next per-frame resolution.
    pub fn set(&mut self, value: Value)
        requires
            value.wf(),
        ensures
            final(self).wf(),
            match value {
                Value::Random(lo, hi) => final(self).value == value && (if lo <= hi {
                    lo <= final(self).last_value <= hi
                } else {
                    hi <= final(self).last_value <= lo
                }),
                _ => *final(self) == cached_set_spec(*old(self), value),
            },
    {
        self.value = value;
        match value {
            Value::Fixed(v) => {
                self.last_value = v;
            },
            Value::Random(lo, hi) => {
                self.last_value = draw_between(lo, hi);
            },
            Value::Parameter(_, _) => {},
        }
    }

    /// Re-resolve a parameter source from the live parameters.
    pub fn update(&mut self, params: &Parameters)
        requires
            old(self).wf(),
            params.wf(),
        ensures
            *final(self) == cached_update_spec(*old(self), *params),
            final(self).wf(),
    {
        match self.value {
            Value::Parameter(id, m) => {
                match params.value_of(id.index) {
                    Some(v) => {
                        self.last_value = m.map(v);
                    },
                    None => {},
                }
            },
            _ => {},
        }
    }

    /// The last concrete value this source resolved to.
    pub fn value(&self) -> (r: i64)
        ensures
            r == self.last_value,
    {
        self.last_value
    }
}

/// A uniform draw between two fixed-point bounds, in either order.
fn draw_between(lo: i64, hi: i64) -> (r: i64)
    ensures
        lo <= hi ==> lo <= r <= hi,
        hi < lo ==> hi <= r <= lo,
{
    let t = tls_random_in(0, FX_ONE_U);
    let r = lerp_fx(lo, hi, t);
    proof {
        lemma_lerp_in_range(lo as int, hi as int, t as int);
    }
    r
}

} // verus!
