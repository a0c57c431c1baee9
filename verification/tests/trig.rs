use voxels::fixed::Fix64;
use voxels::sin_cos::sin_cos_pi;

#[test]
fn test_sincospi() {
    let to_f64 = |v: Fix64| v.as_bits() as f64 / (1u64 << 24) as f64;
    let eps = to_f64(Fix64::from_bits(5));
    let mut worst: f64 = 0.0;
    for i in (Fix64::from_int(-4).as_bits()..=Fix64::from_int(4).as_bits()).step_by(12345) {
        let v = Fix64::from_bits(i);
        let fv = to_f64(v);
        let (fsin, fcos) = (fv * std::f64::consts::PI).sin_cos();
        let (sin, cos) = sin_cos_pi(v);
        let sin_dist = (to_f64(sin) - fsin).abs();
        let cos_dist = (to_f64(cos) - fcos).abs();
        let max_dist = sin_dist.max(cos_dist);
        if max_dist > worst {
            worst = max_dist;
        }
    }
    assert!(worst < eps, "worst error {} exceeds {}", worst, eps);
}

#[test]
fn test_sincospi_exact_points() {
    // sin(0) = 0, cos(0) = 1.
    let (s, c) = sin_cos_pi(Fix64::from_int(0));
    assert_eq!(s.as_bits(), 0);
    assert_eq!(c.as_bits(), 1 << 24);
    // sin(pi/2) = 1, cos(pi/2) = 0.
    let (s, c) = sin_cos_pi(Fix64::from_rat(1, 2));
    assert_eq!(s.as_bits(), 1 << 24);
    assert_eq!(c.as_bits(), 0);
    // sin(pi) = 0, cos(pi) = -1.
    let (s, c) = sin_cos_pi(Fix64::from_int(1));
    assert_eq!(s.as_bits(), 0);
    assert_eq!(c.as_bits(), -1 << 24);
    // sin(3pi/2) = -1, cos(3pi/2) = 0.
    let (s, c) = sin_cos_pi(Fix64::from_rat(3, 2));
    assert_eq!(s.as_bits(), -1 << 24);
    assert_eq!(c.as_bits(), 0);
    // The approximation is periodic in 2: x and x + 2 agree exactly.
    let x = Fix64::from_rat(7, 16);
    let (s1, c1) = sin_cos_pi(x);
    let (s2, c2) = sin_cos_pi(x.add(Fix64::from_int(2)));
    assert_eq!(s1.as_bits(), s2.as_bits());
    assert_eq!(c1.as_bits(), c2.as_bits());
}

#[test]
fn test_sincospi_quarter_turn() {
    // sin(pi/4) and cos(pi/4) agree with each other and with sqrt(1/2).
    let to_f64 = |v: Fix64| v.as_bits() as f64 / (1u64 << 24) as f64;
    let (s, c) = sin_cos_pi(Fix64::from_rat(1, 4));
    assert_eq!(s.as_bits(), c.as_bits());
    assert!((to_f64(s) - 0.5f64.sqrt()).abs() < 1e-6);
}
