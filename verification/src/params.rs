//! The chorus control surface: one configuration record per parameter
//! (declared range, default, smoothing duration) and the record of all
//! three, constructed once and handed to the engine.

use vstd::prelude::*;
use crate::DEPTH_LIMIT;
use crate::MAX_SMOOTHING_MS;
use crate::PARAM_LIMIT;
use crate::RATE_LIMIT;
use crate::SCALE;

verus! {

/// Fixed-point lower bound of the rate parameter: 0.01 Hz.
pub const RATE_MIN: i64 = 10_000;

/// Fixed-point upper bound of the rate parameter: 5 Hz.
pub const RATE_MAX: i64 = 5_000_000;

/// Fixed-point default of the rate parameter: 0.25 Hz.
pub const RATE_DEFAULT: i64 = 250_000;

/// Smoothing duration of the rate parameter, in milliseconds.
pub const RATE_SMOOTHING_MS: u32 = 40;

/// Fixed-point lower bound of the depth parameter: 0 seconds.
pub const DEPTH_MIN: i64 = 0;

/// Fixed-point upper bound of the depth parameter: 0.02 seconds.
pub const DEPTH_MAX: i64 = 20_000;

/// Fixed-point default of the depth parameter: 0.01 seconds.
pub const DEPTH_DEFAULT: i64 = 10_000;

/// Smoothing duration of the depth parameter, in milliseconds.
pub const DEPTH_SMOOTHING_MS: u32 = 50;

/// Fixed-point lower bound of the mix parameter: all dry.
pub const MIX_MIN: i64 = 0;

/// Fixed-point upper bound of the mix parameter: all wet.
pub const MIX_MAX: i64 = 1_000_000;

/// Fixed-point default of the mix parameter: an even blend.
pub const MIX_DEFAULT: i64 = 500_000;

/// Smoothing duration of the mix parameter, in milliseconds.
pub const MIX_SMOOTHING_MS: u32 = 50;

/// Declared range, default and smoothing duration of one control parameter.
/// Display formatting is the host's concern and has no place here.
#[derive(Clone, Copy, PartialEq, Eq, Structural, Debug)]
pub struct ParamConfig {
    /// Fixed-point lower bound of the declared range.
    pub min_value: i64,
    /// Fixed-point upper bound of the declared range.
    pub max_value: i64,
    /// Fixed-point value the parameter starts on.
    pub default_value: i64,
    /// Duration of the smoothing ramp, in milliseconds.
    pub smoothing_ms: u32,
}

impl ParamConfig {
    /// Well-formedness: an ordered range holding the default, within the
    /// machine bounds the engine arithmetic needs.
    pub open spec fn wf(self) -> bool {
        &&& -PARAM_LIMIT <= self.min_value <= self.default_value <= self.max_value <= PARAM_LIMIT
        &&& self.smoothing_ms <= MAX_SMOOTHING_MS
    }
}

/// The three chorus controls: rate (Hz), depth (seconds) and mix (ratio),
/// each as a fixed-point configuration record.
#[derive(Clone, Copy, PartialEq, Eq, Structural, Debug)]
pub struct ChorusParameters {
    /// Oscillation rate of the modulation, in fixed-point Hz.
    pub rate: ParamConfig,
    /// Maximum modulation delay, in fixed-point seconds.
    pub depth: ParamConfig,
    /// Wet/dry blend, as a fixed-point ratio in `[0, 1]`.
    pub mix: ParamConfig,
}

impl ChorusParameters {
    /// Well-formedness: each record is ordered, the rate and depth ranges
    /// are nonnegative and within the limits the engine arithmetic needs,
    /// and the mix range stays within the unit interval.
    pub open spec fn wf(self) -> bool {
        &&& self.rate.wf()
        &&& self.depth.wf()
        &&& self.mix.wf()
        &&& 0 <= self.rate.min_value
        &&& self.rate.max_value <= RATE_LIMIT
        &&& 0 <= self.depth.min_value
        &&& self.depth.max_value <= DEPTH_LIMIT
        &&& 0 <= self.mix.min_value
        &&& self.mix.max_value <= SCALE
    }
}

/// The declared chorus control surface: rate in `[0.01, 5]` Hz defaulting
/// to 0.25 with a 40 ms ramp, depth in `[0, 0.02]` seconds defaulting to
/// 0.01 with a 50 ms ramp, and mix in `[0, 1]` defaulting to an even blend
/// with a 50 ms ramp.
pub open spec fn standard_parameters() -> ChorusParameters {
    ChorusParameters {
        rate: ParamConfig {
            min_value: RATE_MIN,
            max_value: RATE_MAX,
            default_value: RATE_DEFAULT,
            smoothing_ms: RATE_SMOOTHING_MS,
        },
        depth: ParamConfig {
            min_value: DEPTH_MIN,
            max_value: DEPTH_MAX,
            default_value: DEPTH_DEFAULT,
            smoothing_ms: DEPTH_SMOOTHING_MS,
        },
        mix: ParamConfig {
            min_value: MIX_MIN,
            max_value: MIX_MAX,
            default_value: MIX_DEFAULT,
            smoothing_ms: MIX_SMOOTHING_MS,
        },
    }
}

impl Default for ChorusParameters {
    /// Builds the declared control surface (see [`standard_parameters`]).
    fn default() -> (r: Self)
        ensures
            r == standard_parameters(),
            r.wf(),
    {
        ChorusParameters {
            rate: ParamConfig {
                min_value: RATE_MIN,
                max_value: RATE_MAX,
                default_value: RATE_DEFAULT,
                smoothing_ms: RATE_SMOOTHING_MS,
            },
            depth: ParamConfig {
                min_value: DEPTH_MIN,
                max_value: DEPTH_MAX,
                default_value: DEPTH_DEFAULT,
                smoothing_ms: DEPTH_SMOOTHING_MS,
            },
            mix: ParamConfig {
                min_value: MIX_MIN,
                max_value: MIX_MAX,
                default_value: MIX_DEFAULT,
                smoothing_ms: MIX_SMOOTHING_MS,
            },
        }
    }
}

} // verus!
