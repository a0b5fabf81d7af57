//! Conversion configuration and its merging with command-line options.

use crate::args::{Args, OutputFormat};
use vstd::prelude::*;

verus! {

/// The configuration one conversion runs under.
pub struct Config {
    /// Output array format.
    pub output_format: OutputFormat,
    /// Target sample rate in Hz, when resampling is requested.
    pub sample_rate: Option<u32>,
    /// Target channel count, when remapping is requested.
    pub channels: Option<u32>,
    /// Gain in dB, as an `f32` bit pattern.
    pub gain: u32,
    /// Whether to rescale the peak magnitude to one.
    pub normalize: bool,
    /// How the output file is rendered.
    pub output_settings: OutputSettings,
}

/// Presentation options for the emitted array.
pub struct OutputSettings {
    /// The collection type named in the emitted declaration.
    pub array_type: String,
    /// Whether a metadata comment is emitted.
    pub include_metadata: bool,
    /// Whether the rendering may be compacted.
    pub compress: bool,
}

impl Default for Config {
    /// The configuration used when no file and no options override it:
    /// 32-bit float output, no resampling, no remapping, zero gain,
    /// no normalization.
    fn default() -> (c: Config)
        ensures
            c.output_format == OutputFormat::F32,
            c.sample_rate is None,
            c.channels is None,
            c.gain == 0u32,
            c.normalize == false,
            c.output_settings.array_type@ == "Vec"@,
            c.output_settings.include_metadata == true,
            c.output_settings.compress == false,
    {
        Config {
            output_format: OutputFormat::F32,
            sample_rate: None,
            channels: None,
            gain: 0,
            normalize: false,
            output_settings: OutputSettings {
                array_type: "Vec".to_owned(),
                include_metadata: true,
                compress: false,
            },
        }
    }
}

impl Config {
    /// Overrides each setting that the command line states explicitly and
    /// keeps the rest.
    pub fn merge_with_args(&mut self, args: &Args)
        ensures
            final(self).output_format == (match args.format {
                Some(f) => f,
                None => old(self).output_format,
            }),
            final(self).sample_rate == (match args.sample_rate {
                Some(sr) => Some(sr),
                None => old(self).sample_rate,
            }),
            final(self).channels == (match args.channels {
                Some(ch) => Some(ch),
                None => old(self).channels,
            }),
            final(self).gain == (match args.gain {
                Some(g) => g,
                None => old(self).gain,
            }),
            final(self).normalize == old(self).normalize,
            final(self).output_settings == old(self).output_settings,
    {
        if let Some(format) = args.format {
            self.output_format = format;
        }
        if let Some(sr) = args.sample_rate {
            self.sample_rate = Some(sr);
        }
        if let Some(ch) = args.channels {
            self.channels = Some(ch);
        }
        if let Some(gain) = args.gain {
            self.gain = gain;
        }
    }
}

} // verus!
