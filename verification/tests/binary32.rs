use virtdriver::binary32::{gt, nan, ne, ONE, ZERO};

fn patterns() -> Vec<u32> {
    let mut all = vec![
        0x0000_0000, 0x8000_0000, 0x0000_0001, 0x8000_0001, 0x007F_FFFF, 0x0080_0000,
        0x0080_0001, 0x00FF_FFFF, 0x0100_0000, 0x3E80_0000, 0x3F00_0000, 0x3F7F_FFFF,
        0x3F80_0000, 0x3F80_0001, 0xBF80_0000, 0x4236_0000, 0x7F7F_FFFF, 0xFF7F_FFFF,
        0x7F80_0000, 0xFF80_0000, 0x7F80_0001, 0x7FC0_0000, 0xFFC0_0000, 0xFFFF_FFFF,
        0x7FFF_FFFF,
    ];
    let mut state: u32 = 0x1234_5678;
    for _ in 0..200 {
        state = state.wrapping_mul(1_664_525).wrapping_add(1_013_904_223);
        all.push(state);
    }
    all
}

#[test]
fn constants_are_zero_and_one() {
    assert_eq!(ZERO, 0.0f32.to_bits());
    assert_eq!(ONE, 1.0f32.to_bits());
}

#[test]
fn nan_agrees_with_hardware() {
    for a in patterns() {
        assert_eq!(nan(a), f32::from_bits(a).is_nan(), "pattern {:#010x}", a);
    }
}

#[test]
fn gt_agrees_with_hardware() {
    let all = patterns();
    for &a in &all {
        for &b in &all {
            assert_eq!(
                gt(a, b),
                f32::from_bits(a) > f32::from_bits(b),
                "patterns {:#010x} {:#010x}",
                a,
                b
            );
        }
    }
}

#[test]
fn ne_agrees_with_hardware() {
    let all = patterns();
    for &a in &all {
        for &b in &all {
            assert_eq!(
                ne(a, b),
                f32::from_bits(a) != f32::from_bits(b),
                "patterns {:#010x} {:#010x}",
                a,
                b
            );
        }
    }
}

#[test]
fn zeros_of_both_signs_are_equal() {
    assert!(!ne(0x0000_0000, 0x8000_0000));
    assert!(!gt(0x0000_0000, 0x8000_0000));
    assert!(!gt(0x8000_0000, 0x0000_0000));
}

#[test]
fn nan_is_unordered_and_unequal() {
    let quiet = f32::NAN.to_bits();
    assert!(nan(quiet));
    assert!(!gt(quiet, ZERO));
    assert!(!gt(ZERO, quiet));
    assert!(ne(quiet, quiet));
}

#[test]
fn one_is_above_a_quarter_and_zero_is_not() {
    let quarter = 0.25f32.to_bits();
    assert!(gt(ONE, quarter));
    assert!(!gt(ZERO, quarter));
    assert!(gt(quarter, ZERO));
}

#[test]
fn infinities_bound_every_finite_number() {
    let up = f32::INFINITY.to_bits();
    let down = f32::NEG_INFINITY.to_bits();
    assert!(gt(up, f32::MAX.to_bits()));
    assert!(gt(f32::MIN.to_bits(), down));
    assert!(gt(up, down));
}
