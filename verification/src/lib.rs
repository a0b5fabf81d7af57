//! Audio sample transformation pipeline: gain, linear-interpolation resampling,
//! channel remapping, peak normalization, and output-format quantization.
//!
//! Samples are carried as the raw `u32` bit patterns of IEEE 754 single-precision
//! values, and the floating-point arithmetic the stages need is carried out in
//! verified integer code over those bit patterns ([`sample_ops`]), so the whole
//! pipeline — the numeric operations included — is verified, with no trusted
//! wrappers around an external notion of arithmetic.

pub mod args;
pub mod array_writer;
pub mod converter;
pub mod sample_ops;
pub mod settings;
