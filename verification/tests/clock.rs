use rust_dap_rp::clock::{
    clock_divisor, default_pio_divisor, default_swj_clock_hz, swj_pins_divisor,
};
use rust_dap_rp::single::Single;

const RATES: [u32; 24] = [
    1,
    2,
    3,
    7,
    10,
    255,
    1_000,
    65_537,
    999_999,
    9_999_999,
    10_000_000,
    10_000_001,
    12_000_000,
    16_777_215,
    16_777_216,
    16_777_217,
    16_777_219,
    125_000_000,
    133_333_333,
    150_000_000,
    2_150_000_000,
    4_294_967_167,
    4_294_967_168,
    u32::MAX,
];

fn value(s: Single) -> f32 {
    f32::from_bits(s.to_bits())
}

#[test]
fn integers_round_as_single_precision_does() {
    for x in RATES {
        assert_eq!(value(Single::from_u32(x)), x as f32);
        assert_eq!(Single::from_u32(x).to_u32(), (x as f32) as u32);
    }
    assert_eq!(Single::from_u32(0).to_bits(), 0.0f32.to_bits());
    let mut x: u32 = 0x1234_5678;
    for _ in 0..20_000 {
        x = x.wrapping_mul(1_664_525).wrapping_add(1_013_904_223);
        assert_eq!(value(Single::from_u32(x)), x as f32);
        let small = x >> (x & 31);
        assert_eq!(value(Single::from_u32(small)), small as f32);
    }
}

#[test]
fn ties_go_to_the_even_significand() {
    // Halfway between 16777216 and 16777218, and between 16777218 and 16777220.
    assert_eq!(Single::from_u32(16_777_217).to_u32(), 16_777_216);
    assert_eq!(Single::from_u32(16_777_219).to_u32(), 16_777_220);
    // Rounded up to two to the power of 32, which no u32 holds.
    assert_eq!(value(Single::from_u32(u32::MAX)), 4_294_967_296.0);
    assert_eq!(Single::from_u32(u32::MAX).to_u32(), u32::MAX);
}

#[test]
fn quotients_round_as_single_precision_does() {
    for a in RATES {
        for b in RATES {
            let q = Single::from_u32(a).div(Single::from_u32(b));
            assert_eq!(value(q), a as f32 / b as f32);
            assert_eq!(q.to_u32(), (a as f32 / b as f32) as u32);
            for c in RATES {
                assert_eq!(value(q.div(Single::from_u32(c))), a as f32 / b as f32 / c as f32);
            }
        }
    }
    let zero = Single::from_u32(0);
    assert_eq!(zero.div(Single::from_u32(7)).to_bits(), 0);
}

#[test]
fn small_integers_and_division_by_one_are_exact() {
    for x in [1u32, 3, 1_000, 16_777_215] {
        assert_eq!(value(Single::from_u32(x)) as f64, x as f64);
        assert_eq!(Single::from_u32(x).div(Single::one()), Single::from_u32(x));
    }
}

#[test]
fn the_larger_value_is_taken() {
    let half = Single::from_u32(1).div(Single::from_u32(2));
    assert_eq!(half.max(Single::one()), Single::one());
    assert_eq!(Single::one().max(half), Single::one());
    assert_eq!(Single::from_u32(3).max(Single::from_u32(2)), Single::from_u32(3));
    assert_eq!(Single::from_u32(0).max(half), half);
    assert_eq!(half.max(Single::from_u32(0)), half);
    assert_eq!(half.to_u32(), 0);
}

#[test]
fn default_divisor_is_one() {
    assert_eq!(value(default_pio_divisor()), 1.0);
}

#[test]
fn clock_divisor_divides_in_single_precision() {
    for s in RATES {
        for f in RATES {
            for c in RATES {
                let expected = (s as f32 / c as f32 / f as f32).max(1.0);
                assert_eq!(value(clock_divisor(s, f, c)), expected);
            }
        }
    }
    assert_eq!(value(clock_divisor(150_000_000, 1_000_000, 4)), 37.5);
    assert_eq!(value(clock_divisor(150_000_000, 10_000_000, 4)), 3.75);
}

#[test]
fn clock_divisor_falls_back_to_the_default() {
    assert_eq!(value(clock_divisor(0, 1_000_000, 4)), 1.0);
    assert_eq!(value(clock_divisor(150_000_000, 0, 4)), 1.0);
    assert_eq!(value(clock_divisor(150_000_000, 1_000_000, 0)), 1.0);
    // Faster than the system clock allows.
    assert_eq!(value(clock_divisor(150_000_000, 40_000_000, 4)), 1.0);
    assert_eq!(value(clock_divisor(150_000_000, u32::MAX, 4)), 1.0);
}

#[test]
fn default_clock_rate() {
    assert_eq!(default_swj_clock_hz(150_000_000, 4), 37_500_000);
    assert_eq!(default_swj_clock_hz(125_000_000, 3), 41_666_668);
    assert_eq!(default_swj_clock_hz(7, 2), 3);
    assert_eq!(default_swj_clock_hz(0, 4), 0);
    assert_eq!(default_swj_clock_hz(0, 0), 0);
    assert_eq!(default_swj_clock_hz(150_000_000, 0), u32::MAX);
    for s in RATES {
        for c in RATES {
            assert_eq!(default_swj_clock_hz(s, c), (s as f32 / c as f32 / 1.0) as u32);
        }
        assert_eq!(default_swj_clock_hz(s, 0), (s as f32 / 0.0) as u32);
    }
}

#[test]
fn pin_program_divisor() {
    assert_eq!(value(swj_pins_divisor(150_000_000)), 15.0);
    assert_eq!(value(swj_pins_divisor(125_000_000)), 12.5);
    assert_eq!(value(swj_pins_divisor(10_000_000)), 1.0);
    assert_eq!(value(swj_pins_divisor(9_999_999)), 1.0);
    assert_eq!(value(swj_pins_divisor(0)), 1.0);
    for s in RATES {
        assert_eq!(value(swj_pins_divisor(s)), (s as f32 / 10_000_000.0).max(1.0));
    }
}

#[test]
fn clock_divisor_meets_the_frequency() {
    for system_clock_hz in [150_000_000u32, 133_000_001, 16_777_217, u32::MAX] {
        for frequency_hz in [1u32, 999_983, 1_000_000, 9_999_991, 33_554_433] {
            for cycles_per_clock in [1u32, 2, 3, 7, 100] {
                let divisor =
                    value(clock_divisor(system_clock_hz, frequency_hz, cycles_per_clock)) as f64;
                let exact = system_clock_hz as f64 / cycles_per_clock as f64 / frequency_hz as f64;
                let wanted = exact.max(1.0);
                assert!((divisor - wanted).abs() <= wanted / 2_097_152.0);
            }
        }
    }
    // Whole ratios are met exactly.
    assert_eq!(value(clock_divisor(150_000_000, 1_000_000, 2)), 75.0);
    assert_eq!(value(clock_divisor(125_000_000, 5_000_000, 5)), 5.0);
}
