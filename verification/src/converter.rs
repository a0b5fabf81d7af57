//! The sample transformation pipeline: gain, sample-rate conversion by
//! linear interpolation, channel remapping, and peak normalization, applied
//! in that fixed order.
//!
//! Buffers are interleaved streams of single-precision samples carried as
//! `u32` bit patterns (see [`crate::sample_ops`]). Every stage states its
//! result exactly: which sample lands where, and which arithmetic produced
//! it.

use crate::args::OutputFormat;
use crate::sample_ops::{
    abs_bits, add_bits, div_bits, f32_of_u32, gain_factor_bits, is_zero_bits, mul_bits,
    sample_abs, sample_add, sample_div, sample_gain_factor, sample_mul, sample_of_u32,
    sample_sub, sub_bits, ONE_BITS, TWO_BITS,
};
use crate::settings::Config;
use vstd::arithmetic::div_mod::{
    lemma_div_multiples_vanish, lemma_div_pos_is_pos, lemma_fundamental_div_mod,
    lemma_mod_bound, lemma_multiply_divide_lt,
};
use vstd::arithmetic::mul::{
    lemma_mul_basics, lemma_mul_inequality, lemma_mul_is_commutative,
    lemma_mul_is_distributive_sub_other_way, lemma_mul_nonnegative,
};
use vstd::prelude::*;

verus! {

/// One linear-interpolation output sample: `a * (1 - f) + b * f` over
/// encoded values.
pub open spec fn lerp_bits(a: u32, b: u32, f: u32) -> u32 {
    add_bits(mul_bits(a, sub_bits(ONE_BITS, f)), mul_bits(b, f))
}

/// The interpolation fraction `rem / to` as an encoded value.
pub open spec fn frac_bits(rem: u32, to: u32) -> u32 {
    div_bits(f32_of_u32(rem), f32_of_u32(to))
}

/// The average of two encoded values: `(l + r) / 2`.
pub open spec fn avg_bits(l: u32, r: u32) -> u32 {
    div_bits(add_bits(l, r), TWO_BITS)
}

/// The gain stage over a whole buffer: the identity at zero gain (either
/// zero), otherwise every sample scaled by the factor `10^(g/20)`.
pub open spec fn spec_apply_gain(s: Seq<u32>, g: u32) -> Seq<u32> {
    if is_zero_bits(g) {
        s
    } else {
        s.map_values(|x: u32| mul_bits(x, gain_factor_bits(g)))
    }
}

/// The resampled buffer length: unchanged at equal rates, empty for a zero
/// source rate, otherwise `floor(len * to / from)`.
pub open spec fn resampled_len(len: int, from: u32, to: u32) -> int {
    if from == to {
        len
    } else if from == 0 {
        0
    } else {
        (len * to) / (from as int)
    }
}

/// The resampled sample at output index `i`: the source position is
/// `i * from / to`; its integer part picks the sample pair and the
/// remainder the interpolation fraction. The last source sample is
/// passed through unblended.
pub open spec fn resampled_at(s: Seq<u32>, from: u32, to: u32, i: int) -> u32 {
    let idx = (i * from) / (to as int);
    let rem = (i * from) % (to as int);
    if idx + 1 < s.len() {
        lerp_bits(s[idx], s[idx + 1], frac_bits(rem as u32, to))
    } else {
        s[idx]
    }
}

/// The resampler over a whole buffer.
pub open spec fn spec_resample(s: Seq<u32>, from: u32, to: u32) -> Seq<u32> {
    if from == to {
        s
    } else {
        Seq::new(
            resampled_len(s.len() as int, from, to) as nat,
            |i: int| resampled_at(s, from, to, i),
        )
    }
}

/// The channel remapper over a whole buffer: stereo to mono averages each
/// pair (a trailing partial frame is dropped), mono to stereo duplicates
/// each sample, and every other channel pair passes through unchanged.
pub open spec fn spec_remap(s: Seq<u32>, from: u32, to: u32) -> Seq<u32> {
    if from == 2 && to == 1 {
        Seq::new((s.len() / 2) as nat, |i: int| avg_bits(s[2 * i], s[2 * i + 1]))
    } else if from == 1 && to == 2 {
        Seq::new((s.len() * 2) as nat, |i: int| s[i / 2])
    } else {
        s
    }
}

/// The peak magnitude of a buffer, as magnitude bits: zero exactly for
/// silent (or empty) buffers.
pub open spec fn peak_bits(s: Seq<u32>) -> u32
    decreases s.len(),
{
    if s.len() == 0 {
        0u32
    } else {
        let rest = peak_bits(s.drop_last());
        let last = abs_bits(s.last());
        if last > rest {
            last
        } else {
            rest
        }
    }
}

/// The normalizer over a whole buffer: a silent buffer is unchanged,
/// otherwise every sample is scaled by `1 / peak`.
pub open spec fn spec_normalize(s: Seq<u32>) -> Seq<u32> {
    if peak_bits(s) == 0 {
        s
    } else {
        s.map_values(|x: u32| mul_bits(x, div_bits(ONE_BITS, peak_bits(s))))
    }
}

/// The whole pipeline: gain always runs (a true no-op at zero gain);
/// resampling and remapping run only when a differing target is configured;
/// normalization runs when enabled, always last.
pub open spec fn spec_convert(c: Config, s: Seq<u32>, sample_rate: u32, channels: u32) -> Seq<
    u32,
> {
    let g = spec_apply_gain(s, c.gain);
    let r = match c.sample_rate {
        Some(t) => if t != sample_rate {
            spec_resample(g, sample_rate, t)
        } else {
            g
        },
        None => g,
    };
    let m = match c.channels {
        Some(t) => if t != channels {
            spec_remap(r, channels, t)
        } else {
            r
        },
        None => r,
    };
    if c.normalize {
        spec_normalize(m)
    } else {
        m
    }
}

/// Whether a resampled length fits the machine: the one machine limit the
/// pipeline needs from its caller.
pub open spec fn convert_len_ok(c: Config, len: int, sample_rate: u32) -> bool {
    match c.sample_rate {
        Some(t) => t != sample_rate ==> resampled_len(len, sample_rate, t) <= usize::MAX,
        None => true,
    }
}

/// Mono to stereo doubles the length and stereo to mono halves it, so on a
/// well-formed stereo buffer (one whose length is a multiple of the frame
/// size two) the round trip through mono preserves the length.
pub proof fn lemma_remap_round_trip_len(s: Seq<u32>)
    requires
        s.len() % 2 == 0,
    ensures
        spec_remap(spec_remap(s, 2, 1), 1, 2).len() == s.len(),
{
}

/// Resampling at equal rates is the identity, for every buffer and rate,
/// the zero rate included.
pub proof fn lemma_resample_identity(s: Seq<u32>, r: u32)
    ensures
        spec_resample(s, r, r) == s,
{
}

/// The gain stage at zero gain is the identity, for every buffer.
pub proof fn lemma_gain_identity(s: Seq<u32>, g: u32)
    requires
        is_zero_bits(g),
    ensures
        spec_apply_gain(s, g) == s,
{
}

/// A silent buffer is a fixed point of the normalizer.
pub proof fn lemma_normalize_silence(s: Seq<u32>)
    requires
        peak_bits(s) == 0,
    ensures
        spec_normalize(s) == s,
{
}

/// Transformed samples with the stream description and format they are to
/// be written under.
pub struct ConvertedAudio {
    /// The transformed interleaved samples, as `f32` bit patterns.
    pub samples: Vec<u32>,
    /// The sample rate the buffer is to be interpreted at, in Hz.
    pub sample_rate: u32,
    /// The channel count the buffer is interleaved for.
    pub channels: u32,
    /// The output array format.
    pub format: OutputFormat,
}

/// The pipeline orchestrator: owns the configuration for one conversion.
pub struct AudioConverter {
    config: Config,
}

impl View for AudioConverter {
    type V = Config;

    closed spec fn view(&self) -> Config {
        self.config
    }
}

/// The gain stage: scales every sample by `10^(gain_db/20)`; a zero gain
/// (of either sign) returns the buffer unchanged.
pub fn apply_gain(samples: &Vec<u32>, gain_db: u32) -> (r: Vec<u32>)
    ensures
        r@ == spec_apply_gain(samples@, gain_db),
        r@.len() == samples@.len(),
        is_zero_bits(gain_db) ==> r@ == samples@,
        forall|i: int|
            0 <= i < samples@.len() && !is_zero_bits(gain_db) ==> r@[i] == mul_bits(
                samples@[i],
                gain_factor_bits(gain_db),
            ),
{
    if sample_abs(gain_db) == 0 {
        return copy_samples(samples);
    }
    let factor = sample_gain_factor(gain_db);
    let mut out: Vec<u32> = Vec::new();
    let mut i: usize = 0;
    while i < samples.len()
        invariant
            i <= samples@.len(),
            out@.len() == i,
            !is_zero_bits(gain_db),
            factor == gain_factor_bits(gain_db),
            forall|j: int| 0 <= j < i ==> out@[j] == mul_bits(samples@[j], gain_factor_bits(gain_db)),
        decreases samples@.len() - i,
    {
        let v = sample_mul(samples[i], factor);
        out.push(v);
        i += 1;
    }
    proof {
        assert(out@ =~= spec_apply_gain(samples@, gain_db));
    }
    out
}

/// An element-for-element copy of a sample buffer.
fn copy_samples(samples: &Vec<u32>) -> (r: Vec<u32>)
    ensures
        r@ == samples@,
{
    let mut out: Vec<u32> = Vec::new();
    let mut i: usize = 0;
    while i < samples.len()
        invariant
            i <= samples@.len(),
            out@ == samples@.subrange(0, i as int),
        decreases samples@.len() - i,
    {
        out.push(samples[i]);
        proof {
            assert(out@ =~= samples@.subrange(0, (i + 1) as int));
        }
        i += 1;
    }
    proof {
        assert(samples@.subrange(0, samples@.len() as int) =~= samples@);
    }
    out
}

/// Output index `i` of a resampled buffer reads a valid source index.
proof fn lemma_resample_idx_bound(len: int, from: int, to: int, i: int)
    requires
        0 <= len,
        0 < from,
        0 < to,
        0 <= i,
        i < (len * to) / from,
    ensures
        0 <= (i * from) / to < len,
        0 <= (i * from) % to < to,
{
    let n = (len * to) / from;
    lemma_mul_nonnegative(len, to);
    lemma_fundamental_div_mod(len * to, from);
    lemma_mod_bound(len * to, from);
    // from * n <= len * to
    lemma_mul_inequality(i, n - 1, from);
    // (n - 1) * from == n * from - from
    lemma_mul_is_distributive_sub_other_way(from, n, 1);
    lemma_mul_basics(from);
    lemma_mul_is_commutative(n, from);
    assert(i * from <= n * from - from);
    lemma_mul_is_commutative(len, to);
    assert(i * from < to * len);
    lemma_mul_nonnegative(i, from);
    lemma_multiply_divide_lt(i * from, to, len);
    lemma_div_pos_is_pos(i * from, to);
    lemma_mod_bound(i * from, to);
}

impl AudioConverter {
    /// A converter that will run under the given configuration.
    pub fn new(config: Config) -> (c: AudioConverter)
        ensures
            c@ == config,
    {
        AudioConverter { config }
    }

    /// The resampler: linear interpolation over the interleaved stream,
    /// index-based and not channel-aware. Equal rates are an identity; a
    /// zero source or target rate yields an empty buffer rather than an
    /// error or a division by zero. The output length follows the
    /// truncation rule `floor(len * to / from)`.
    pub fn resample(&self, samples: &Vec<u32>, from_rate: u32, to_rate: u32) -> (r: Vec<u32>)
        requires
            resampled_len(samples@.len() as int, from_rate, to_rate) <= usize::MAX,
        ensures
            r@ == spec_resample(samples@, from_rate, to_rate),
            r@.len() == resampled_len(samples@.len() as int, from_rate, to_rate),
            from_rate == to_rate ==> r@ == samples@,
            from_rate != 0 ==> r@.len() == samples@.len() * to_rate / (from_rate as int),
    {
        if from_rate == to_rate {
            let r = copy_samples(samples);
            proof {
                if from_rate != 0 {
                    lemma_mul_is_commutative(samples@.len() as int, from_rate as int);
                    lemma_div_multiples_vanish(samples@.len() as int, from_rate as int);
                }
            }
            return r;
        }
        if from_rate == 0 {
            let r: Vec<u32> = Vec::new();
            proof {
                assert(r@ =~= spec_resample(samples@, from_rate, to_rate));
            }
            return r;
        }
        let len = samples.len();
        proof {
            lemma_mul_inequality(len as int, 0xFFFF_FFFF_FFFF_FFFF, to_rate as int);
            lemma_mul_is_commutative(len as int, to_rate as int);
            lemma_mul_inequality(to_rate as int, 0xFFFF_FFFF, 0xFFFF_FFFF_FFFF_FFFF);
            lemma_mul_is_commutative(to_rate as int, 0xFFFF_FFFF_FFFF_FFFF);
        }
        let new_len_wide: u128 = (len as u128) * (to_rate as u128) / (from_rate as u128);
        let new_len: usize = new_len_wide as usize;
        let mut out: Vec<u32> = Vec::new();
        let mut i: usize = 0;
        while i < new_len
            invariant
                i <= new_len,
                out@.len() == i,
                0 < from_rate,
                from_rate != to_rate,
                new_len == resampled_len(samples@.len() as int, from_rate, to_rate),
                new_len > 0 ==> to_rate > 0,
                len == samples@.len(),
                forall|j: int|
                    0 <= j < i ==> out@[j] == resampled_at(samples@, from_rate, to_rate, j),
            decreases new_len - i,
        {
            proof {
                lemma_mul_inequality(i as int, 0xFFFF_FFFF_FFFF_FFFF, from_rate as int);
                lemma_mul_is_commutative(i as int, from_rate as int);
                lemma_mul_inequality(from_rate as int, 0xFFFF_FFFF, 0xFFFF_FFFF_FFFF_FFFF);
                lemma_mul_is_commutative(from_rate as int, 0xFFFF_FFFF_FFFF_FFFF);
                lemma_resample_idx_bound(
                    len as int,
                    from_rate as int,
                    to_rate as int,
                    i as int,
                );
            }
            let pos: u128 = (i as u128) * (from_rate as u128);
            let idx: usize = (pos / (to_rate as u128)) as usize;
            let rem: u32 = (pos % (to_rate as u128)) as u32;
            let val: u32;
            if idx + 1 < len {
                let fr = sample_div(sample_of_u32(rem), sample_of_u32(to_rate));
                let one_minus = sample_sub(ONE_BITS, fr);
                val = sample_add(
                    sample_mul(samples[idx], one_minus),
                    sample_mul(samples[idx + 1], fr),
                );
            } else {
                val = samples[idx];
            }
            out.push(val);
            i += 1;
        }
        proof {
            assert(out@ =~= spec_resample(samples@, from_rate, to_rate));
        }
        out
    }

    /// The channel remapper: stereo to mono averages each `(L, R)` pair and
    /// silently drops a trailing partial frame; mono to stereo duplicates
    /// each sample into two consecutive outputs; every other channel pair
    /// passes the buffer through unchanged.
    #[verifier::rlimit(100)]
    pub fn convert_channels(&self, samples: &Vec<u32>, from_channels: u32, to_channels: u32) -> (r:
        Vec<u32>)
        ensures
            r@ == spec_remap(samples@, from_channels, to_channels),
            from_channels == 2 && to_channels == 1 ==> r@.len() == samples@.len() / 2
                && forall|i: int|
                0 <= i < r@.len() ==> r@[i] == avg_bits(samples@[2 * i], samples@[2 * i + 1]),
            from_channels == 1 && to_channels == 2 ==> r@.len() == samples@.len() * 2 && forall|
                j: int,
            |
                0 <= j < r@.len() ==> r@[j] == samples@[j / 2],
            !(from_channels == 2 && to_channels == 1) && !(from_channels == 1 && to_channels == 2)
                ==> r@ == samples@,
    {
        if from_channels == 2 && to_channels == 1 {
            let mut out: Vec<u32> = Vec::new();
            let mut i: usize = 0;
            while i + 1 < samples.len()
                invariant
                    i % 2 == 0,
                    i <= samples@.len(),
                    out@.len() == i / 2,
                    forall|j: int|
                        0 <= j < out@.len() ==> #[trigger] out@[j] == avg_bits(
                            samples@[2 * j],
                            samples@[2 * j + 1],
                        ),
                decreases samples@.len() - i,
            {
                let v = sample_div(sample_add(samples[i], samples[i + 1]), TWO_BITS);
                out.push(v);
                i += 2;
            }
            proof {
                assert(out@ =~= spec_remap(samples@, from_channels, to_channels));
            }
            out
        } else if from_channels == 1 && to_channels == 2 {
            let mut out: Vec<u32> = Vec::new();
            let mut i: usize = 0;
            while i < samples.len()
                invariant
                    i <= samples@.len(),
                    out@.len() == 2 * i,
                    forall|j: int| 0 <= j < out@.len() ==> out@[j] == samples@[j / 2],
                decreases samples@.len() - i,
            {
                let s = samples[i];
                out.push(s);
                out.push(s);
                i += 1;
            }
            proof {
                assert(out@ =~= spec_remap(samples@, from_channels, to_channels));
            }
            out
        } else {
            let r = copy_samples(samples);
            r
        }
    }

    /// The normalizer: rescales the buffer in place so the peak magnitude
    /// becomes one; a silent or empty buffer is left untouched, so no
    /// division by zero can arise.
    pub fn normalize_samples(&self, samples: &mut Vec<u32>)
        ensures
            final(samples)@ == spec_normalize(old(samples)@),
            peak_bits(old(samples)@) == 0 ==> final(samples)@ == old(samples)@,
    {
        let mut peak: u32 = 0;
        let mut i: usize = 0;
        while i < samples.len()
            invariant
                i <= samples@.len(),
                samples@ == old(samples)@,
                peak == peak_bits(samples@.subrange(0, i as int)),
            decreases samples@.len() - i,
        {
            let a = sample_abs(samples[i]);
            proof {
                let pre = samples@.subrange(0, (i + 1) as int);
                assert(pre.drop_last() =~= samples@.subrange(0, i as int));
                assert(pre.last() == samples@[i as int]);
            }
            if a > peak {
                peak = a;
            }
            i += 1;
        }
        proof {
            assert(samples@.subrange(0, samples@.len() as int) =~= samples@);
        }
        if peak > 0 {
            let scale = sample_div(ONE_BITS, peak);
            let mut out: Vec<u32> = Vec::new();
            let mut j: usize = 0;
            while j < samples.len()
                invariant
                    j <= samples@.len(),
                    samples@ == old(samples)@,
                    out@.len() == j,
                    peak == peak_bits(samples@),
                    peak > 0,
                    scale == div_bits(ONE_BITS, peak_bits(samples@)),
                    forall|k: int|
                        0 <= k < j ==> out@[k] == mul_bits(
                            samples@[k],
                            div_bits(ONE_BITS, peak_bits(samples@)),
                        ),
                decreases samples@.len() - j,
            {
                let v = sample_mul(samples[j], scale);
                out.push(v);
                j += 1;
            }
            proof {
                assert(out@ =~= spec_normalize(samples@));
            }
            *samples = out;
        }
    }

    /// Runs the pipeline under this converter's configuration: gain, then
    /// resampling when a differing target rate is set, then channel
    /// remapping when a differing target count is set, then normalization
    /// when enabled. The result carries the final rate and channel count,
    /// falling back to the source values where no override is configured.
    pub fn convert(&self, samples: &Vec<u32>, sample_rate: u32, channels: u32) -> (r:
        ConvertedAudio)
        requires
            convert_len_ok(self@, samples@.len() as int, sample_rate),
        ensures
            r.samples@ == spec_convert(self@, samples@, sample_rate, channels),
            r.sample_rate == (match self@.sample_rate {
                Some(t) => t,
                None => sample_rate,
            }),
            r.channels == (match self@.channels {
                Some(t) => t,
                None => channels,
            }),
            r.format == self@.output_format,
    {
        let mut processed = apply_gain(samples, self.config.gain);

        if let Some(target_sr) = self.config.sample_rate {
            if target_sr != sample_rate {
                processed = self.resample(&processed, sample_rate, target_sr);
            }
        }

        if let Some(target_channels) = self.config.channels {
            if target_channels != channels {
                processed = self.convert_channels(&processed, channels, target_channels);
            }
        }

        if self.config.normalize {
            self.normalize_samples(&mut processed);
        }

        let out_rate = match self.config.sample_rate {
            Some(t) => t,
            None => sample_rate,
        };
        let out_channels = match self.config.channels {
            Some(t) => t,
            None => channels,
        };
        ConvertedAudio {
            samples: processed,
            sample_rate: out_rate,
            channels: out_channels,
            format: self.config.output_format,
        }
    }
}

} // verus!
