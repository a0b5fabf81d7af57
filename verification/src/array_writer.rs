//! The format quantizer: maps a transformed sample buffer into the
//! requested numeric representation.
//!
//! Floating-point outputs are copied (or exactly widened); integer outputs
//! clamp each sample to `[-1.0, 1.0]` *before* scaling, so out-of-range
//! samples (after extreme gain, say) saturate instead of wrapping.

use crate::args::OutputFormat;
use crate::sample_ops::{
    clamp_unit, clamp_unit_bits, mul_bits, sample_mul, sample_to_i16, sample_to_i32,
    sample_widen, trunc_i16_bits, trunc_i32_bits, widen_bits, I16_SCALE_BITS, I32_SCALE_BITS,
};
use vstd::prelude::*;

verus! {

/// A sample quantized to `i16`: clamped to `[-1.0, 1.0]`, scaled by
/// `32767.0`, truncated toward zero.
pub open spec fn quantized_i16(b: u32) -> i16 {
    trunc_i16_bits(mul_bits(clamp_unit_bits(b), I16_SCALE_BITS))
}

/// A sample quantized to `i32`: clamped to `[-1.0, 1.0]`, scaled by
/// `2147483647f32` (which is `2^31` once encoded), truncated toward zero
/// and saturated.
pub open spec fn quantized_i32(b: u32) -> i32 {
    trunc_i32_bits(mul_bits(clamp_unit_bits(b), I32_SCALE_BITS))
}

/// A sample buffer quantized into one of the output representations.
/// Floating-point element values are carried as their bit patterns.
pub enum EncodedBuffer {
    /// Single-precision elements, as `f32` bit patterns.
    F32(Vec<u32>),
    /// Double-precision elements, as `f64` bit patterns.
    F64(Vec<u64>),
    /// 16-bit integer elements.
    I16(Vec<i16>),
    /// 32-bit integer elements.
    I32(Vec<i32>),
}

/// Renders converted audio as array data; the numeric mapping lives here,
/// the surrounding text layout is a presentation concern of the caller.
pub struct ArrayWriter;

impl ArrayWriter {
    /// Quantizes a buffer into the requested representation: `F32` copies
    /// the samples, `F64` widens each exactly, `I16` and `I32` clamp to
    /// `[-1.0, 1.0]` and then scale and truncate, so no integer output
    /// ever overflows its type.
    pub fn quantize(samples: &Vec<u32>, format: OutputFormat) -> (r: EncodedBuffer)
        ensures
            format == OutputFormat::F32 ==> (r matches EncodedBuffer::F32(v) && v@ == samples@),
            format == OutputFormat::F64 ==> (r matches EncodedBuffer::F64(v) && v@.len()
                == samples@.len() && forall|i: int|
                0 <= i < samples@.len() ==> v@[i] == widen_bits(samples@[i])),
            format == OutputFormat::I16 ==> (r matches EncodedBuffer::I16(v) && v@.len()
                == samples@.len() && forall|i: int|
                0 <= i < samples@.len() ==> v@[i] == quantized_i16(samples@[i])),
            format == OutputFormat::I32 ==> (r matches EncodedBuffer::I32(v) && v@.len()
                == samples@.len() && forall|i: int|
                0 <= i < samples@.len() ==> v@[i] == quantized_i32(samples@[i])),
    {
        match format {
            OutputFormat::F32 => {
                let mut out: Vec<u32> = Vec::new();
                let mut i: usize = 0;
                while i < samples.len()
                    invariant
                        i <= samples@.len(),
                        out@ == samples@.subrange(0, i as int),
                    decreases samples@.len() - i,
                {
                    out.push(samples[i]);
                    proof {
                        assert(out@ =~= samples@.subrange(0, (i + 1) as int));
                    }
                    i += 1;
                }
                proof {
                    assert(samples@.subrange(0, samples@.len() as int) =~= samples@);
                }
                EncodedBuffer::F32(out)
            },
            OutputFormat::F64 => {
                let mut out: Vec<u64> = Vec::new();
                let mut i: usize = 0;
                while i < samples.len()
                    invariant
                        i <= samples@.len(),
                        out@.len() == i,
                        forall|j: int| 0 <= j < i ==> out@[j] == widen_bits(samples@[j]),
                    decreases samples@.len() - i,
                {
                    let v = sample_widen(samples[i]);
                    out.push(v);
                    i += 1;
                }
                EncodedBuffer::F64(out)
            },
            OutputFormat::I16 => {
                let mut out: Vec<i16> = Vec::new();
                let mut i: usize = 0;
                while i < samples.len()
                    invariant
                        i <= samples@.len(),
                        out@.len() == i,
                        forall|j: int| 0 <= j < i ==> out@[j] == quantized_i16(samples@[j]),
                    decreases samples@.len() - i,
                {
                    let v = sample_to_i16(sample_mul(clamp_unit(samples[i]), I16_SCALE_BITS));
                    out.push(v);
                    i += 1;
                }
                EncodedBuffer::I16(out)
            },
            OutputFormat::I32 => {
                let mut out: Vec<i32> = Vec::new();
                let mut i: usize = 0;
                while i < samples.len()
                    invariant
                        i <= samples@.len(),
                        out@.len() == i,
                        forall|j: int| 0 <= j < i ==> out@[j] == quantized_i32(samples@[j]),
                    decreases samples@.len() - i,
                {
                    let v = sample_to_i32(sample_mul(clamp_unit(samples[i]), I32_SCALE_BITS));
                    out.push(v);
                    i += 1;
                }
                EncodedBuffer::I32(out)
            },
        }
    }
}

} // verus!
