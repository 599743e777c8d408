//! The store of tunable controls and the per-block snapshot of it.
//!
//! Values are fixed-point scalars counted in units of `fixed::SCALE`
//! (so `SCALE` is the normalized control value 1.0). The store performs
//! no validation: out-of-range values are accepted and only clamped at
//! the point where an index is derived from them, as the engine does.
//! The host adapter that shares one store between a control thread and
//! the audio thread keeps its own atomically-readable copy outside the
//! library and hands the engine a `ParamSnapshot` once per block.

use vstd::prelude::*;

use crate::fixed::{sat_i32, sat_i32_of_i64};

verus! {

/// Default for amplitude, delay time, wet level and dry level: 0.5.
pub const DEFAULT_HALF: i32 = 500_000;

/// Default feedback fraction: 0.3.
pub const DEFAULT_FEEDBACK: i32 = 300_000;

/// The indexed-parameter surface maps the normalized delay-time control
/// to seconds by this factor (control 1.0 means four seconds).
pub const DELAY_TIME_FACTOR: i32 = 4;

/// Index of the output-gain parameter on the indexed surface.
pub const PARAM_AMPLITUDE: i32 = 0;

/// Index of the feedback parameter on the indexed surface.
pub const PARAM_FEEDBACK: i32 = 1;

/// Index of the delay-time parameter on the indexed surface.
pub const PARAM_DELAY_TIME: i32 = 2;

/// The value stored for the delay time when the indexed surface is given
/// a normalized control value: the control scaled by `DELAY_TIME_FACTOR`,
/// saturated to the `i32` range.
pub open spec fn scaled_delay_time(value: int) -> int {
    sat_i32(value * DELAY_TIME_FACTOR as int)
}

/// What the indexed surface reads back at `index` from the controls
/// `p`: the stored value for the three indexed controls, zero for any
/// other index.
pub open spec fn read_spec(p: ParamSnapshot, index: int) -> int {
    if index == PARAM_AMPLITUDE as int {
        p.amplitude as int
    } else if index == PARAM_FEEDBACK as int {
        p.feedback as int
    } else if index == PARAM_DELAY_TIME as int {
        p.delay_time as int
    } else {
        0
    }
}

/// One coherent copy of every control, read by the engine once per block.
#[derive(Clone, Copy, PartialEq, Eq, Structural, Debug)]
pub struct ParamSnapshot {
    /// Post-mix output gain.
    pub amplitude: i32,
    /// Delay time in fixed-point seconds.
    pub delay_time: i32,
    /// Gain applied to the delayed signal.
    pub wet: i32,
    /// Gain applied to the live signal.
    pub dry: i32,
    /// Fraction of the signal re-injected into the delay line.
    pub feedback: i32,
}

/// The effect's tunable controls.
pub struct ParameterStore {
    amplitude: i32,
    delay_time: i32,
    delay_wet: i32,
    delay_dry: i32,
    delay_feedback: i32,
}

impl Default for ParameterStore {
    /// The same store as `ParameterStore::new`.
    fn default() -> (store: Self)
        ensures
            store.model() == Self::default_snapshot(),
    {
        Self::new()
    }
}

impl ParameterStore {
    /// The stored controls as one snapshot value.
    pub closed spec fn model(&self) -> ParamSnapshot {
        ParamSnapshot {
            amplitude: self.amplitude,
            delay_time: self.delay_time,
            wet: self.delay_wet,
            dry: self.delay_dry,
            feedback: self.delay_feedback,
        }
    }

    /// The store after the indexed surface stores `value` at `index`:
    /// amplitude, feedback, and scaled delay time have an index; any
    /// other index changes nothing.
    pub open spec fn after_set(self, index: int, value: int) -> ParamSnapshot {
        if index == PARAM_AMPLITUDE as int {
            ParamSnapshot { amplitude: value as i32, ..self.model() }
        } else if index == PARAM_FEEDBACK as int {
            ParamSnapshot { feedback: value as i32, ..self.model() }
        } else if index == PARAM_DELAY_TIME as int {
            ParamSnapshot { delay_time: scaled_delay_time(value) as i32, ..self.model() }
        } else {
            self.model()
        }
    }

    /// A store holding the default controls.
    pub fn new() -> (store: Self)
        ensures
            store.model() == Self::default_snapshot(),
    {
        ParameterStore {
            amplitude: DEFAULT_HALF,
            delay_time: DEFAULT_HALF,
            delay_wet: DEFAULT_HALF,
            delay_dry: DEFAULT_HALF,
            delay_feedback: DEFAULT_FEEDBACK,
        }
    }

    /// Half amplitude, half a second of delay, an even wet/dry mix, and
    /// a gentle feedback fraction.
    pub open spec fn default_snapshot() -> ParamSnapshot {
        ParamSnapshot {
            amplitude: DEFAULT_HALF,
            delay_time: DEFAULT_HALF,
            wet: DEFAULT_HALF,
            dry: DEFAULT_HALF,
            feedback: DEFAULT_FEEDBACK,
        }
    }

    /// Copy every control into a snapshot for one processing block.
    pub fn snapshot(&self) -> (p: ParamSnapshot)
        ensures
            p == self.model(),
    {
        ParamSnapshot {
            amplitude: self.amplitude,
            delay_time: self.delay_time,
            wet: self.delay_wet,
            dry: self.delay_dry,
            feedback: self.delay_feedback,
        }
    }

    /// Store `value` at `index` on the indexed surface. The delay-time
    /// control is scaled from normalized units to seconds; an index
    /// outside the surface is ignored; nothing is validated or clamped.
    pub fn set_parameter(&mut self, index: i32, value: i32)
        ensures
            final(self).model() == old(self).after_set(index as int, value as int),
    {
        if index == PARAM_AMPLITUDE {
            self.amplitude = value;
        } else if index == PARAM_FEEDBACK {
            self.delay_feedback = value;
        } else if index == PARAM_DELAY_TIME {
            proof {
                assert(-2147483648i64 * 4i64 <= value as i64 * DELAY_TIME_FACTOR as i64
                    <= 2147483647i64 * 4i64) by (nonlinear_arith)
                    requires
                        -2147483648i64 <= value as i64 <= 2147483647i64,
                        DELAY_TIME_FACTOR as i64 == 4i64;
            }
            self.delay_time = sat_i32_of_i64(value as i64 * DELAY_TIME_FACTOR as i64);
        }
    }

    /// Read back the control at `index` on the indexed surface; an index
    /// outside the surface reads zero.
    pub fn get_parameter(&self, index: i32) -> (r: i32)
        ensures
            r as int == read_spec(self.model(), index as int),
    {
        if index == PARAM_AMPLITUDE {
            self.amplitude
        } else if index == PARAM_FEEDBACK {
            self.delay_feedback
        } else if index == PARAM_DELAY_TIME {
            self.delay_time
        } else {
            0
        }
    }

    /// Round trip of the indexed surface: what `set_parameter` stores at
    /// an index is what `get_parameter` reads back — the raw value for
    /// amplitude and feedback, the value scaled from normalized units to
    /// seconds for the delay time.
    pub proof fn lemma_parameter_round_trip(store: ParameterStore, index: int, value: int)
        requires
            i32::MIN as int <= value <= i32::MAX as int,
            PARAM_AMPLITUDE as int <= index <= PARAM_DELAY_TIME as int,
        ensures
            index != PARAM_DELAY_TIME as int ==> read_spec(store.after_set(index, value), index)
                == value,
            index == PARAM_DELAY_TIME as int ==> read_spec(store.after_set(index, value), index)
                == scaled_delay_time(value),
    {
    }

    /// The display name of each control on the indexed surface; an
    /// index outside the surface has an empty name.
    pub fn parameter_name(index: i32) -> (r: &'static str)
        ensures
            index == PARAM_AMPLITUDE ==> r@ == "Amplitude"@,
            index == PARAM_FEEDBACK ==> r@ == "feedback"@,
            index == PARAM_DELAY_TIME ==> r@ == "Time"@,
            !(PARAM_AMPLITUDE <= index <= PARAM_DELAY_TIME) ==> r@ == ""@,
    {
        if index == PARAM_AMPLITUDE {
            "Amplitude"
        } else if index == PARAM_FEEDBACK {
            "feedback"
        } else if index == PARAM_DELAY_TIME {
            "Time"
        } else {
            ""
        }
    }

    /// Set the output gain directly.
    pub fn set_amplitude(&mut self, value: i32)
        ensures
            final(self).model() == (ParamSnapshot { amplitude: value, ..old(self).model() }),
    {
        self.amplitude = value;
    }

    /// Set the delay time directly, in fixed-point seconds.
    pub fn set_delay_time(&mut self, value: i32)
        ensures
            final(self).model() == (ParamSnapshot { delay_time: value, ..old(self).model() }),
    {
        self.delay_time = value;
    }

    /// Set the wet level directly.
    pub fn set_wet(&mut self, value: i32)
        ensures
            final(self).model() == (ParamSnapshot { wet: value, ..old(self).model() }),
    {
        self.delay_wet = value;
    }

    /// Set the dry level directly.
    pub fn set_dry(&mut self, value: i32)
        ensures
            final(self).model() == (ParamSnapshot { dry: value, ..old(self).model() }),
    {
        self.delay_dry = value;
    }

    /// Set the feedback fraction directly.
    pub fn set_feedback(&mut self, value: i32)
        ensures
            final(self).model() == (ParamSnapshot { feedback: value, ..old(self).model() }),
    {
        self.delay_feedback = value;
    }
}

} // verus!
