//! Startup configuration and its validation.
//!
//! Invalid flag values are fatal before any processing begins: each
//! constructor rejection names the first flag, in the order the flags
//! are checked, that is out of range.

use vstd::prelude::*;
use vstd::string::StrSliceExecFns;

verus! {

/// Why a configuration was rejected.
#[derive(Debug, Clone, Copy, PartialEq, Eq)]
pub enum ConfigError {
    /// The decay rate must lie strictly between zero and one.
    InvalidDecayRate,
    /// The frame rate must lie in `1..=120`.
    InvalidFrameRate,
    /// The smoothing kernel size must be an odd number in `1..=13`.
    InvalidMedianBlur,
    /// The output file base name must have at least five characters.
    InvalidOutputFile,
}

/// The decay rate is carried in millionths, so that the whole
/// configuration is exact: `(0, 1)` becomes `1..=999_999`.
pub open spec fn valid_decay_rate(millionths: u32) -> bool {
    0 < millionths < 1000000
}

pub open spec fn valid_frame_rate(rate: i32) -> bool {
    0 < rate <= 120
}

pub open spec fn valid_median_blur(size: i32) -> bool {
    1 <= size <= 13 && size % 2 == 1
}

pub open spec fn valid_output_file(name: Seq<char>) -> bool {
    name.len() >= 5
}

/// A validated configuration; `frame_interval` is the microseconds per
/// frame derived from the requested frame rate.
#[derive(Debug)]
pub struct Config {
    pub decay_rate_millionths: u32,
    pub frame_rate: i32,
    pub median_blur: i32,
    pub output_file: String,
    pub frame_interval: i32,
}

impl Config {
    /// Validate the flag values; on success the frame interval is
    /// exactly one second divided by the frame rate, rounded down.
    pub fn new(
        decay_rate_millionths: u32,
        frame_rate: i32,
        median_blur: i32,
        output_file: String,
    ) -> (r: Result<Config, ConfigError>)
        ensures
            r is Ok <==> {
                &&& valid_decay_rate(decay_rate_millionths)
                &&& valid_frame_rate(frame_rate)
                &&& valid_median_blur(median_blur)
                &&& valid_output_file(output_file@)
            },
            match r {
                Ok(c) => {
                    &&& c.decay_rate_millionths == decay_rate_millionths
                    &&& c.frame_rate == frame_rate
                    &&& c.median_blur == median_blur
                    &&& c.output_file == output_file
                    &&& c.frame_interval == 1000000int / (frame_rate as int)
                    &&& c.frame_interval >= 1
                },
                Err(e) => {
                    &&& (e == ConfigError::InvalidDecayRate <==> !valid_decay_rate(
                        decay_rate_millionths,
                    ))
                    &&& (e == ConfigError::InvalidFrameRate <==> valid_decay_rate(
                        decay_rate_millionths,
                    ) && !valid_frame_rate(frame_rate))
                    &&& (e == ConfigError::InvalidMedianBlur <==> valid_decay_rate(
                        decay_rate_millionths,
                    ) && valid_frame_rate(frame_rate) && !valid_median_blur(median_blur))
                    &&& (e == ConfigError::InvalidOutputFile <==> valid_decay_rate(
                        decay_rate_millionths,
                    ) && valid_frame_rate(frame_rate) && valid_median_blur(median_blur)
                        && !valid_output_file(output_file@))
                },
            },
    {
        if decay_rate_millionths == 0 || decay_rate_millionths >= 1000000 {
            return Err(ConfigError::InvalidDecayRate);
        }
        if frame_rate <= 0 || frame_rate > 120 {
            return Err(ConfigError::InvalidFrameRate);
        }
        if median_blur < 1 || median_blur > 13 || median_blur % 2 == 0 {
            return Err(ConfigError::InvalidMedianBlur);
        }
        if output_file.as_str().unicode_len() < 5 {
            return Err(ConfigError::InvalidOutputFile);
        }
        let frame_interval = (1000000u32 / (frame_rate as u32)) as i32;
        proof {
            assert(1000000int / (frame_rate as int) >= 8333) by (nonlinear_arith)
                requires
                    0 < frame_rate <= 120,
            ;
        }
        Ok(Config { decay_rate_millionths, frame_rate, median_blur, output_file, frame_interval })
    }
}

} // verus!
