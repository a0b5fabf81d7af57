use audio_converter::args::{Args, OutputFormat};
use audio_converter::array_writer::{ArrayWriter, EncodedBuffer};
use audio_converter::converter::{apply_gain, AudioConverter};
use audio_converter::settings::Config;

fn bits_of(samples: &[f32]) -> Vec<u32> {
    samples.iter().map(|s| s.to_bits()).collect()
}

fn floats_of(samples: &[u32]) -> Vec<f32> {
    samples.iter().map(|s| f32::from_bits(*s)).collect()
}

fn default_converter() -> AudioConverter {
    AudioConverter::new(Config::default())
}

#[test]
fn test_gain_identity_at_zero() {
    let samples = bits_of(&[0.1, -0.2, 0.3, -0.0, 1e-40]);
    let out = apply_gain(&samples, 0.0f32.to_bits());
    assert_eq!(out, samples);
}

#[test]
fn test_gain_identity_at_negative_zero() {
    let samples = bits_of(&[0.5, -0.5]);
    let out = apply_gain(&samples, (-0.0f32).to_bits());
    assert_eq!(out, samples);
}

#[test]
fn test_gain_linearity_concrete() {
    let samples = [0.5f32, -0.25, 0.125];
    let out = floats_of(&apply_gain(&bits_of(&samples), (-12.0f32).to_bits()));
    let factor = 10.0f32.powf(-12.0 / 20.0);
    for (o, s) in out.iter().zip(samples.iter()) {
        assert!((o - s * factor).abs() < 1e-6, "{o} vs {}", s * factor);
    }
}

#[test]
fn test_gain_factor_accuracy_across_range() {
    for g10 in -600..=600 {
        let g = g10 as f32 / 10.0;
        let reference = 10.0f32.powf(g / 20.0);
        let mut config = Config::default();
        config.gain = g.to_bits();
        let converter = AudioConverter::new(config);
        let out = floats_of(&converter.convert(&bits_of(&[1.0]), 44100, 1).samples);
        let rel = ((out[0] - reference) / reference).abs();
        assert!(rel < 1e-5, "gain {g}: {} vs {reference}", out[0]);
    }
}

#[test]
fn test_resample_identity() {
    let conv = default_converter();
    let samples = bits_of(&[0.1, -0.7, 0.3, 0.9]);
    let out = conv.resample(&samples, 44100, 44100);
    assert_eq!(out, samples);
    let empty: Vec<u32> = vec![];
    assert_eq!(conv.resample(&empty, 8000, 8000), empty);
}

#[test]
fn test_resample_length_rule() {
    let conv = default_converter();
    let ten = bits_of(&[0.0; 10]);
    // floor(10 * 48000 / 44100) == 10
    assert_eq!(conv.resample(&ten, 44100, 48000).len(), 10);
    // floor(10 * 96000 / 44100) == 21
    assert_eq!(conv.resample(&ten, 44100, 96000).len(), 21);
    let four = bits_of(&[0.1, 0.2, 0.3, 0.4]);
    assert_eq!(conv.resample(&four, 44100, 22050).len(), 2);
    assert_eq!(conv.resample(&four, 22050, 44100).len(), 8);
}

#[test]
fn test_resample_degenerate_rates_give_empty_output() {
    let conv = default_converter();
    let four = bits_of(&[0.1, 0.2, 0.3, 0.4]);
    assert_eq!(conv.resample(&four, 44100, 0).len(), 0);
    assert_eq!(conv.resample(&four, 0, 44100).len(), 0);
}

#[test]
fn test_resample_interpolated_values() {
    let conv = default_converter();
    let input = [0.0f32, 1.0, 2.0, 3.0];
    let out = floats_of(&conv.resample(&bits_of(&input), 4, 3));
    assert_eq!(out.len(), 3);
    // index 1 reads source position 4/3: fraction 1/3 between 1.0 and 2.0
    let frac = 1.0f32 / 3.0f32;
    let expected = 1.0f32 * (1.0 - frac) + 2.0f32 * frac;
    assert_eq!(out[0], 0.0);
    assert_eq!(out[1], expected);
}

#[test]
fn test_resample_halving_takes_even_indices() {
    let conv = default_converter();
    let input = [0.1f32, 0.2, 0.3, 0.4, 0.5, 0.6];
    let out = floats_of(&conv.resample(&bits_of(&input), 44100, 22050));
    assert_eq!(out.len(), 3);
    assert_eq!(out[0], 0.1);
    assert_eq!(out[1], 0.3);
    assert_eq!(out[2], 0.5);
}

#[test]
fn test_mono_stereo_round_trip_length() {
    let conv = default_converter();
    let stereo = bits_of(&[0.1, 0.2, 0.3, 0.4, 0.5, 0.6]);
    let mono = conv.convert_channels(&stereo, 2, 1);
    let back = conv.convert_channels(&mono, 1, 2);
    assert_eq!(back.len(), stereo.len());
}

#[test]
fn test_stereo_to_mono_averaging() {
    let conv = default_converter();
    let out = floats_of(&conv.convert_channels(&bits_of(&[0.1, 0.2, 0.3, 0.4]), 2, 1));
    assert_eq!(out.len(), 2);
    assert!((out[0] - 0.15).abs() < 1e-6);
    assert!((out[1] - 0.35).abs() < 1e-6);
}

#[test]
fn test_stereo_to_mono_drops_trailing_partial_frame() {
    let conv = default_converter();
    let out = conv.convert_channels(&bits_of(&[0.1, 0.2, 0.9]), 2, 1);
    assert_eq!(out.len(), 1);
}

#[test]
fn test_mono_to_stereo_duplication() {
    let conv = default_converter();
    let out = floats_of(&conv.convert_channels(&bits_of(&[0.1, 0.2]), 1, 2));
    assert_eq!(out, vec![0.1, 0.1, 0.2, 0.2]);
}

#[test]
fn test_other_channel_pairs_pass_through() {
    let conv = default_converter();
    let six = bits_of(&[0.1, 0.2, 0.3, 0.4, 0.5, 0.6]);
    assert_eq!(conv.convert_channels(&six, 6, 2), six);
    assert_eq!(conv.convert_channels(&six, 2, 2), six);
}

#[test]
fn test_normalize_peak_becomes_one() {
    let conv = default_converter();
    let mut samples = bits_of(&[0.1, 0.2, 0.8, 0.4]);
    conv.normalize_samples(&mut samples);
    let peak = floats_of(&samples).iter().map(|s| s.abs()).fold(0.0f32, f32::max);
    assert!((peak - 1.0).abs() < 1e-6);
}

#[test]
fn test_normalize_negative_peak() {
    let conv = default_converter();
    let mut samples = bits_of(&[0.25, -0.5]);
    conv.normalize_samples(&mut samples);
    let out = floats_of(&samples);
    assert!((out[0] - 0.5).abs() < 1e-6);
    assert!((out[1] + 1.0).abs() < 1e-6);
}

#[test]
fn test_normalize_silence_is_untouched() {
    let conv = default_converter();
    let silence = bits_of(&[0.0, 0.0]);
    let mut samples = silence.clone();
    conv.normalize_samples(&mut samples);
    assert_eq!(samples, silence);

    let signed_silence = bits_of(&[-0.0, 0.0, -0.0]);
    let mut samples = signed_silence.clone();
    conv.normalize_samples(&mut samples);
    assert_eq!(samples, signed_silence);

    let mut empty: Vec<u32> = vec![];
    conv.normalize_samples(&mut empty);
    assert_eq!(empty.len(), 0);
}

#[test]
fn test_quantization_clamps_out_of_range() {
    let out = ArrayWriter::quantize(&bits_of(&[2.0, -2.0]), OutputFormat::I16);
    match out {
        EncodedBuffer::I16(v) => assert_eq!(v, vec![32767, -32767]),
        _ => panic!("wrong buffer variant"),
    }
}

#[test]
fn test_quantize_i16_values() {
    let out = ArrayWriter::quantize(&bits_of(&[0.0, 0.5, -0.5, 1.0, -1.0]), OutputFormat::I16);
    match out {
        EncodedBuffer::I16(v) => {
            assert_eq!(v[0], 0);
            assert_eq!(v[1], (0.5f32 * 32767.0) as i16);
            assert_eq!(v[2], (-0.5f32 * 32767.0) as i16);
            assert_eq!(v[3], 32767);
            assert_eq!(v[4], -32767);
        },
        _ => panic!("wrong buffer variant"),
    }
}

#[test]
fn test_quantize_i32_values() {
    let out = ArrayWriter::quantize(&bits_of(&[1.0, -1.0, 0.5, 3.0]), OutputFormat::I32);
    match out {
        EncodedBuffer::I32(v) => {
            assert_eq!(v[0], (1.0f32 * 2147483647.0f32) as i32);
            assert_eq!(v[1], (-1.0f32 * 2147483647.0f32) as i32);
            assert_eq!(v[2], (0.5f32 * 2147483647.0f32) as i32);
            assert_eq!(v[3], (1.0f32 * 2147483647.0f32) as i32);
        },
        _ => panic!("wrong buffer variant"),
    }
}

#[test]
fn test_quantize_f32_copies_samples() {
    let samples = bits_of(&[0.1, -0.9, 2.5]);
    match ArrayWriter::quantize(&samples, OutputFormat::F32) {
        EncodedBuffer::F32(v) => assert_eq!(v, samples),
        _ => panic!("wrong buffer variant"),
    }
}

#[test]
fn test_quantize_f64_widens_exactly() {
    let values = [0.1f32, -0.25, 1e-40, 3.5];
    match ArrayWriter::quantize(&bits_of(&values), OutputFormat::F64) {
        EncodedBuffer::F64(v) => {
            for (w, s) in v.iter().zip(values.iter()) {
                assert_eq!(*w, (*s as f64).to_bits());
            }
        },
        _ => panic!("wrong buffer variant"),
    }
}

#[test]
fn test_output_format_tags_preserved() {
    for format in [OutputFormat::F32, OutputFormat::F64, OutputFormat::I16, OutputFormat::I32] {
        let test_samples = bits_of(&[0.0, 0.5, -0.5, 1.0, -1.0]);
        let mut config = Config::default();
        config.output_format = format;
        let converter = AudioConverter::new(config);
        let converted = converter.convert(&test_samples, 44100, 1);
        assert_eq!(converted.samples.len(), test_samples.len());
        assert_eq!(converted.format, format);
    }
}

#[test]
fn test_end_to_end_gain_scenario() {
    let mut config = Config::default();
    config.gain = 6.0f32.to_bits();
    let converter = AudioConverter::new(config);
    let converted = converter.convert(&bits_of(&[0.1, 0.2, 0.3, 0.4]), 44100, 2);
    let out = floats_of(&converted.samples);
    assert!((out[0] - 0.1 * 10.0f32.powf(0.3)).abs() < 1e-6);
}

#[test]
fn test_end_to_end_resample_scenario() {
    let mut config = Config::default();
    config.sample_rate = Some(22050);
    let converter = AudioConverter::new(config);
    let converted = converter.convert(&bits_of(&[0.1, 0.2, 0.3, 0.4]), 44100, 2);
    assert_eq!(converted.samples.len(), 2);
}

#[test]
fn test_config_default_values() {
    let config = Config::default();
    assert_eq!(config.output_format, OutputFormat::F32);
    assert_eq!(config.sample_rate, None);
    assert_eq!(config.channels, None);
    assert_eq!(f32::from_bits(config.gain), 0.0);
    assert!(!config.normalize);
    assert_eq!(config.output_settings.array_type, "Vec");
    assert!(config.output_settings.include_metadata);
    assert!(!config.output_settings.compress);
}

#[test]
fn test_merge_with_args_overrides_explicit_options() {
    let mut config = Config::default();
    config.sample_rate = Some(48000);
    let args = Args {
        input: None,
        output: None,
        format: Some(OutputFormat::I16),
        sample_rate: Some(22050),
        channels: Some(1),
        start_time: None,
        duration: None,
        gain: Some(3.0f32.to_bits()),
        config: None,
        verbose: false,
    };
    config.merge_with_args(&args);
    assert_eq!(config.output_format, OutputFormat::I16);
    assert_eq!(config.sample_rate, Some(22050));
    assert_eq!(config.channels, Some(1));
    assert_eq!(f32::from_bits(config.gain), 3.0);
}

#[test]
fn test_merge_with_args_keeps_unset_options() {
    let mut config = Config::default();
    config.sample_rate = Some(48000);
    config.gain = 2.0f32.to_bits();
    let args = Args {
        input: Some("in.wav".to_string()),
        output: Some("out.rs".to_string()),
        format: None,
        sample_rate: None,
        channels: None,
        start_time: None,
        duration: None,
        gain: None,
        config: None,
        verbose: true,
    };
    config.merge_with_args(&args);
    assert_eq!(config.output_format, OutputFormat::F32);
    assert_eq!(config.sample_rate, Some(48000));
    assert_eq!(config.channels, None);
    assert_eq!(f32::from_bits(config.gain), 2.0);
}
