use voxels::fixed::Fix64;

#[test]
fn test_fix64_display() {
    assert_eq!(
        Fix64::from_bits(0x123456789abcdef).to_display_string(),
        "0x123456789.abcdef"
    );
    assert_eq!(
        Fix64::from_bits(-0x123456789abcdef).to_display_string(),
        "-0x123456789.abcdef"
    );
    assert_eq!(Fix64::from_bits(-0x3C00001).to_display_string(), "-0x3.c00001");
}

#[test]
fn test_bits_round_trip() {
    for v in [0i64, 1, -1, 42, -42, i64::MAX, i64::MIN, 0x123456789abcdef] {
        assert_eq!(Fix64::from_bits(v).as_bits(), v);
    }
}

#[test]
fn test_mul_add_zero_returns_addend() {
    let zero = Fix64::from_int(0);
    for (x, b) in [(3i64, 5i64), (-7, 11), (123456, -654321), (i64::MAX, 1), (0, 0)] {
        let xf = Fix64::from_bits(x);
        let bf = Fix64::from_bits(b);
        assert_eq!(xf.mul_add(zero, bf).as_bits(), b);
    }
}

#[test]
fn test_horner_matches_direct_within_one_unit() {
    // Evaluate c0 + c1*x + c2*x^2 once iteratively with mul_add and once
    // directly; the results may differ by at most one rounding unit.
    let c0 = Fix64::from_rat(1, 3);
    let c1 = Fix64::from_rat(-2, 7);
    let c2 = Fix64::from_rat(5, 11);
    let x = Fix64::from_rat(3, 5);
    let mut horner = Fix64::from_int(0);
    horner = horner.mul_add(x, c2);
    horner = horner.mul_add(x, c1);
    horner = horner.mul_add(x, c0);
    let direct = c0.add(c1.mul(x)).add(c2.mul(x).mul(x));
    let diff = horner.as_bits() - direct.as_bits();
    assert!(diff.abs() <= 1, "horner={} direct={}", horner.as_bits(), direct.as_bits());
}

#[test]
fn test_from_int_and_from_rat() {
    assert_eq!(Fix64::from_int(1).as_bits(), 1 << 24);
    assert_eq!(Fix64::from_int(-3).as_bits(), -3 << 24);
    assert_eq!(Fix64::from_rat(1, 2).as_bits(), 0x80_0000);
    assert_eq!(Fix64::from_rat(-3, 2).as_bits(), -(3 << 23));
    assert_eq!(Fix64::from_rat(1, 3).as_bits(), 5592405);
    assert_eq!(Fix64::from_rat(2, -3).as_bits(), -11184810);
}

#[test]
fn test_rounding_helpers() {
    let neg_three_halves = Fix64::from_rat(-3, 2);
    assert_eq!(neg_three_halves.floor(), -2);
    assert_eq!(neg_three_halves.ceil(), -1);
    assert_eq!(neg_three_halves.round(), -1);
    assert_eq!(neg_three_halves.trunc(), -1);
    assert_eq!(neg_three_halves.floor_fract().as_bits(), 0x80_0000);
    let three_halves = Fix64::from_rat(3, 2);
    assert_eq!(three_halves.floor(), 1);
    assert_eq!(three_halves.ceil(), 2);
    assert_eq!(three_halves.round(), 2);
    assert_eq!(three_halves.trunc(), 1);
    assert_eq!(Fix64::from_int(7).floor(), 7);
    assert_eq!(Fix64::from_int(7).ceil(), 7);
}

#[test]
fn test_sign_helpers() {
    assert!(Fix64::from_int(0).is_zero());
    assert!(Fix64::from_int(-2).is_negative());
    assert!(Fix64::from_rat(1, 9).is_positive());
    assert_eq!(Fix64::from_int(-2).signum(), -1);
    assert_eq!(Fix64::from_int(0).signum(), 0);
    assert_eq!(Fix64::from_rat(1, 9).signum(), 1);
    assert_eq!(Fix64::from_int(-2).abs().as_bits(), 2 << 24);
    assert_eq!(Fix64::from_int(2).abs().as_bits(), 2 << 24);
}

#[test]
fn test_mul_div_precision() {
    // 1/3 * 3 loses exactly one unit to the final shift.
    let third = Fix64::from_rat(1, 3);
    assert_eq!(third.mul(Fix64::from_int(3)).as_bits(), (1 << 24) - 1);
    // Division widens first, so 1 / 3 == from_rat(1, 3) exactly.
    assert_eq!(
        Fix64::from_int(1).div(Fix64::from_int(3)).as_bits(),
        third.as_bits()
    );
    assert_eq!(
        Fix64::from_int(6).div(Fix64::from_int(3)).as_bits(),
        Fix64::from_int(2).as_bits()
    );
    // Remainder keeps the sign of the dividend.
    assert_eq!(
        Fix64::from_int(-7).rem(Fix64::from_int(2)).as_bits(),
        Fix64::from_int(-1).as_bits()
    );
    // Additions wrap like the underlying integer.
    assert_eq!(
        Fix64::from_bits(i64::MAX).add(Fix64::from_bits(1)).as_bits(),
        i64::MIN
    );
    assert_eq!(
        Fix64::from_bits(i64::MIN).sub(Fix64::from_bits(1)).as_bits(),
        i64::MAX
    );
    assert_eq!(Fix64::from_int(5).neg().as_bits(), -5 << 24);
}

#[test]
fn test_shifts() {
    assert_eq!(Fix64::from_int(3).shl(2).as_bits(), 12 << 24);
    assert_eq!(Fix64::from_int(3).shr(1).as_bits(), 3 << 23);
    // Right shift is arithmetic: it floors negative values.
    assert_eq!(Fix64::from_bits(-3).shr(1).as_bits(), -2);
    assert_eq!(Fix64::from_bits(i64::MIN).shr(63).as_bits(), -1);
    // Left shift wraps like the representation.
    assert_eq!(Fix64::from_bits(1).shl(63).as_bits(), i64::MIN);
}

#[test]
fn test_comparisons() {
    assert!(Fix64::from_rat(1, 3) < Fix64::from_rat(1, 2));
    assert!(Fix64::from_int(-1) < Fix64::from_int(0));
    assert!(Fix64::from_rat(2, 4) == Fix64::from_rat(1, 2));
    assert_eq!(Fix64::default().as_bits(), 0);
}
