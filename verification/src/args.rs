//! Command-line option values and the output array format, as plain data.
//!
//! Floating-point options are carried as IEEE 754 bit patterns (`u32` for
//! single precision, `u64` for double precision), which is how the rest of
//! the library handles them.

use vstd::prelude::*;

verus! {

/// The element type of the emitted array.
#[derive(Clone, Copy, Debug, PartialEq, Eq, Structural)]
pub enum OutputFormat {
    /// 32-bit floating-point elements.
    F32,
    /// 64-bit floating-point elements.
    F64,
    /// 16-bit integer elements.
    I16,
    /// 32-bit integer elements.
    I32,
}

/// Parsed command-line options.
pub struct Args {
    /// Input audio file path.
    pub input: Option<String>,
    /// Output file path.
    pub output: Option<String>,
    /// Output array format.
    pub format: Option<OutputFormat>,
    /// Target sample rate in Hz.
    pub sample_rate: Option<u32>,
    /// Target channel count.
    pub channels: Option<u32>,
    /// Start time in seconds, as an `f64` bit pattern.
    pub start_time: Option<u64>,
    /// Duration in seconds, as an `f64` bit pattern.
    pub duration: Option<u64>,
    /// Gain in dB, as an `f32` bit pattern.
    pub gain: Option<u32>,
    /// Configuration file path.
    pub config: Option<String>,
    /// Verbose output.
    pub verbose: bool,
}

} // verus!
