use audio_converter::sample_ops::{
    clamp_unit, sample_abs, sample_add, sample_div, sample_flip_sign, sample_gain_factor,
    sample_mul, sample_of_u32, sample_sub, sample_to_i16, sample_to_i32, sample_widen,
};

const VALUES: [f32; 26] = [
    0.0,
    -0.0,
    1.0,
    -1.0,
    0.1,
    0.2,
    -0.3,
    0.5,
    2.0,
    -2.0,
    0.15,
    1.5,
    -0.6,
    7.0,
    123456.78,
    -98765.4,
    1e-30,
    -1e-38,
    1e-40,
    -1.5e-45,
    3.4e38,
    -3.0e38,
    1.0 / 3.0,
    5.9604645e-8,
    f32::INFINITY,
    f32::NEG_INFINITY,
];

#[test]
fn test_add_matches_reference() {
    for &a in &VALUES {
        for &b in &VALUES {
            if (a + b).is_nan() {
                continue;
            }
            assert_eq!(
                sample_add(a.to_bits(), b.to_bits()),
                (a + b).to_bits(),
                "add {a} {b}"
            );
        }
    }
}

#[test]
fn test_sub_matches_reference() {
    for &a in &VALUES {
        for &b in &VALUES {
            if (a - b).is_nan() {
                continue;
            }
            assert_eq!(
                sample_sub(a.to_bits(), b.to_bits()),
                (a - b).to_bits(),
                "sub {a} {b}"
            );
        }
    }
}

#[test]
fn test_mul_matches_reference() {
    for &a in &VALUES {
        for &b in &VALUES {
            if (a * b).is_nan() {
                continue;
            }
            assert_eq!(
                sample_mul(a.to_bits(), b.to_bits()),
                (a * b).to_bits(),
                "mul {a} {b}"
            );
        }
    }
}

#[test]
fn test_div_matches_reference() {
    for &a in &VALUES {
        for &b in &VALUES {
            if (a / b).is_nan() {
                continue;
            }
            assert_eq!(
                sample_div(a.to_bits(), b.to_bits()),
                (a / b).to_bits(),
                "div {a} {b}"
            );
        }
    }
}

#[test]
fn test_add_rounds_ties_to_even() {
    let tiny = f32::from_bits(0x3380_0000); // 2^-24
    assert_eq!(sample_add(1.0f32.to_bits(), tiny.to_bits()), (1.0f32 + tiny).to_bits());
    assert_eq!(sample_add(1.0f32.to_bits(), 1.0f32.to_bits()), 2.0f32.to_bits());
}

#[test]
fn test_hard_rounding_cases() {
    let half_ulp = f32::from_bits(0x3300_0000); // 2^-25, half an ulp at 1.0
    let just_over = f32::from_bits(0x3300_0001);
    assert_eq!(sample_add(1.0f32.to_bits(), half_ulp.to_bits()), (1.0f32 + half_ulp).to_bits());
    assert_eq!(sample_add(1.0f32.to_bits(), just_over.to_bits()), (1.0f32 + just_over).to_bits());
    // overflow rounds to infinity
    let max = f32::MAX;
    assert_eq!(sample_add(max.to_bits(), max.to_bits()), (max + max).to_bits());
    assert_eq!(sample_mul(max.to_bits(), 2.0f32.to_bits()), (max * 2.0).to_bits());
    // full cancellation and near-cancellation
    assert_eq!(sample_sub(0.1f32.to_bits(), 0.1f32.to_bits()), 0.0f32.to_bits());
    let a = f32::from_bits(0x3F80_0001);
    assert_eq!(sample_sub(a.to_bits(), 1.0f32.to_bits()), (a - 1.0).to_bits());
    // subnormal arithmetic
    let tiny = f32::from_bits(1); // smallest positive subnormal
    let sub = f32::from_bits(0x0000_7FFF);
    assert_eq!(sample_add(tiny.to_bits(), sub.to_bits()), (tiny + sub).to_bits());
    assert_eq!(sample_mul(sub.to_bits(), 0.5f32.to_bits()), (sub * 0.5).to_bits());
    assert_eq!(sample_div(tiny.to_bits(), 2.0f32.to_bits()), (tiny / 2.0).to_bits());
    // signed zeros
    assert_eq!(sample_add((-0.0f32).to_bits(), (-0.0f32).to_bits()), (-0.0f32 + -0.0).to_bits());
    assert_eq!(sample_add((-0.0f32).to_bits(), 0.0f32.to_bits()), (-0.0f32 + 0.0).to_bits());
    assert_eq!(sample_mul((-0.0f32).to_bits(), 0.5f32.to_bits()), (-0.0f32 * 0.5).to_bits());
    assert_eq!(sample_div(0.0f32.to_bits(), (-7.0f32).to_bits()), (0.0f32 / -7.0).to_bits());
}

#[test]
fn test_nan_results_are_canonical() {
    let inf = f32::INFINITY.to_bits();
    let zero = 0.0f32.to_bits();
    let qnan = 0x7FC0_0000;
    assert_eq!(sample_mul(inf, zero), qnan);
    assert_eq!(sample_div(zero, zero), qnan);
    assert_eq!(sample_div(inf, inf), qnan);
    assert_eq!(sample_add(inf, f32::NEG_INFINITY.to_bits()), qnan);
    assert_eq!(sample_add(qnan, 1.0f32.to_bits()), qnan);
}

#[test]
fn test_u32_conversion_matches_reference() {
    let cases: [u32; 10] = [
        0,
        1,
        2,
        44100,
        22050,
        16777215,
        16777216,
        16777217,
        0xFFFF_FFFF,
        0x8000_0001,
    ];
    for &x in &cases {
        assert_eq!(sample_of_u32(x), (x as f32).to_bits(), "u32 {x}");
    }
}

#[test]
fn test_int_truncation_matches_reference() {
    let cases: [f32; 14] = [
        0.0, -0.0, 0.5, -0.5, 1.49, -1.49, 32767.9, -32768.5, 40000.0, -40000.0, 3e9, -3e9,
        2.5e9, 1e-40,
    ];
    for &x in &cases {
        assert_eq!(sample_to_i16(x.to_bits()), x as i16, "i16 {x}");
        assert_eq!(sample_to_i32(x.to_bits()), x as i32, "i32 {x}");
    }
    assert_eq!(sample_to_i16(f32::INFINITY.to_bits()), i16::MAX);
    assert_eq!(sample_to_i16(f32::NEG_INFINITY.to_bits()), i16::MIN);
    assert_eq!(sample_to_i32(f32::NEG_INFINITY.to_bits()), i32::MIN);
    assert_eq!(sample_to_i16(f32::NAN.to_bits()), 0);
    assert_eq!(sample_to_i32(f32::NAN.to_bits()), 0);
}

#[test]
fn test_widening_matches_reference() {
    for &x in &VALUES {
        assert_eq!(sample_widen(x.to_bits()), (x as f64).to_bits(), "widen {x}");
    }
}

#[test]
fn test_clamp_unit_matches_reference() {
    for &x in &VALUES {
        assert_eq!(
            f32::from_bits(clamp_unit(x.to_bits())),
            x.clamp(-1.0, 1.0),
            "clamp {x}"
        );
    }
}

#[test]
fn test_abs_and_flip_sign() {
    for &x in &VALUES {
        assert_eq!(sample_abs(x.to_bits()), x.abs().to_bits(), "abs {x}");
        assert_eq!(sample_flip_sign(x.to_bits()), (-x).to_bits(), "neg {x}");
    }
}

#[test]
fn test_gain_factor_against_reference_pow() {
    for g10 in -1200..=1200 {
        let g = g10 as f32 / 10.0;
        let reference = 10.0f32.powf(g / 20.0);
        let mine = f32::from_bits(sample_gain_factor(g.to_bits()));
        let rel = ((mine - reference) / reference).abs();
        assert!(rel < 1e-5, "gain {g}: {mine} vs {reference}");
    }
}

#[test]
fn test_gain_factor_special_cases() {
    assert_eq!(f32::from_bits(sample_gain_factor(0.0f32.to_bits())), 1.0);
    assert_eq!(f32::from_bits(sample_gain_factor((-0.0f32).to_bits())), 1.0);
    assert_eq!(
        f32::from_bits(sample_gain_factor(f32::INFINITY.to_bits())),
        f32::INFINITY
    );
    assert_eq!(f32::from_bits(sample_gain_factor(f32::NEG_INFINITY.to_bits())), 0.0);
    assert_eq!(sample_gain_factor(f32::NAN.to_bits()), 0x7FC0_0000);
    // far beyond the finite range in both directions
    assert_eq!(
        f32::from_bits(sample_gain_factor(1.0e30f32.to_bits())),
        f32::INFINITY
    );
    assert_eq!(f32::from_bits(sample_gain_factor((-1.0e30f32).to_bits())), 0.0);
    // deep attenuation lands in the subnormals, deeper flushes to zero
    let sub = f32::from_bits(sample_gain_factor((-880.0f32).to_bits()));
    assert!(
        sub > 0.0 && sub < f32::MIN_POSITIVE,
        "expected a subnormal factor, got {sub}"
    );
    assert_eq!(f32::from_bits(sample_gain_factor((-1000.0f32).to_bits())), 0.0);
    // amplification past the finite range overflows to infinity
    assert_eq!(
        f32::from_bits(sample_gain_factor(800.0f32.to_bits())),
        f32::INFINITY
    );
}

#[test]
fn test_ops_on_pseudorandom_bit_patterns() {
    // a fixed linear-congruential sweep: deterministic, no external input
    let mut state: u64 = 0x9E37_79B9_7F4A_7C15;
    let mut next = move || {
        state = state.wrapping_mul(6364136223846793005).wrapping_add(1442695040888963407);
        (state >> 32) as u32
    };
    for _ in 0..20000 {
        let pa = next();
        let pb = next();
        let a = f32::from_bits(pa);
        let b = f32::from_bits(pb);
        if !(a + b).is_nan() {
            assert_eq!(sample_add(pa, pb), (a + b).to_bits(), "add {pa:#x} {pb:#x}");
        }
        if !(a - b).is_nan() {
            assert_eq!(sample_sub(pa, pb), (a - b).to_bits(), "sub {pa:#x} {pb:#x}");
        }
        if !(a * b).is_nan() {
            assert_eq!(sample_mul(pa, pb), (a * b).to_bits(), "mul {pa:#x} {pb:#x}");
        }
        if !(a / b).is_nan() {
            assert_eq!(sample_div(pa, pb), (a / b).to_bits(), "div {pa:#x} {pb:#x}");
        }
        if !a.is_nan() {
            assert_eq!(sample_widen(pa), (a as f64).to_bits(), "widen {pa:#x}");
            assert_eq!(sample_to_i16(pa), a as i16, "i16 {pa:#x}");
            assert_eq!(sample_to_i32(pa), a as i32, "i32 {pa:#x}");
        }
        assert_eq!(sample_of_u32(pa), (pa as f32).to_bits(), "u32 {pa:#x}");
    }
}

#[test]
fn test_ops_on_dense_bit_patterns() {
    // a spread of bit patterns across the whole encoding, stepped so the test
    // stays fast; pairs that produce NaN are skipped (payloads differ by design)
    let mut patterns: Vec<u32> = Vec::new();
    let mut p: u32 = 0;
    loop {
        patterns.push(p);
        match p.checked_add(0x01F3_9C25) {
            Some(next) => p = next,
            None => break,
        }
    }
    for &pa in &patterns {
        let a = f32::from_bits(pa);
        for &pb in &patterns[..40] {
            let b = f32::from_bits(pb);
            if !(a + b).is_nan() {
                assert_eq!(sample_add(pa, pb), (a + b).to_bits(), "add {pa:#x} {pb:#x}");
            }
            if !(a * b).is_nan() {
                assert_eq!(sample_mul(pa, pb), (a * b).to_bits(), "mul {pa:#x} {pb:#x}");
            }
            if !(a / b).is_nan() {
                assert_eq!(sample_div(pa, pb), (a / b).to_bits(), "div {pa:#x} {pb:#x}");
            }
        }
    }
}
