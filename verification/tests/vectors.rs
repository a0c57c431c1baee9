use voxels::fixed::Fix64;
use voxels::vec3d::Vec3D;

#[test]
fn test_structural_operations() {
    let v = Vec3D { x: 1i64, y: 2, z: 3 };
    let w = v.map(|c: i64| c * 10);
    assert_eq!(w, Vec3D { x: 10i64, y: 20, z: 30 });
    let r = v.as_ref();
    assert_eq!((*r.x, *r.y, *r.z), (1i64, 2i64, 3i64));
    let z = v.zip(w);
    assert_eq!(z.x, (1i64, 10i64));
    assert_eq!(z.y, (2i64, 20i64));
    assert_eq!(z.z, (3i64, 30i64));
    let a = v.into_array();
    assert_eq!(a, [1i64, 2, 3]);
    assert_eq!(Vec3D::from_array(a), v);
}

#[test]
fn test_integer_arithmetic() {
    let a = Vec3D { x: 5i64, y: -3, z: 2 };
    let b = Vec3D { x: 1i64, y: 1, z: -1 };
    assert_eq!(a.sub_const(b), Vec3D { x: 4i64, y: -4, z: 3 });
    assert_eq!(a.dot_const(b), 5 - 3 - 2);
    assert_eq!(a.abs_sq_const(), 25 + 9 + 4);
    assert_eq!(a.sub_const(a).abs_sq_const(), 0);
}

#[test]
fn test_fixed_arithmetic() {
    let fx = |n: i64, d: i64| Fix64::from_rat(n, d);
    let a = Vec3D { x: fx(1, 2), y: fx(-1, 4), z: fx(3, 1) };
    let b = Vec3D { x: fx(1, 2), y: fx(1, 4), z: fx(-1, 1) };
    let s = a.add(b);
    assert_eq!(s.x.as_bits(), Fix64::from_int(1).as_bits());
    assert_eq!(s.y.as_bits(), 0);
    assert_eq!(s.z.as_bits(), Fix64::from_int(2).as_bits());
    let d = a.sub(b);
    assert_eq!(d.x.as_bits(), 0);
    assert_eq!(d.y.as_bits(), fx(-1, 2).as_bits());
    assert_eq!(d.z.as_bits(), Fix64::from_int(4).as_bits());
    let n = a.neg();
    assert_eq!(n.x.as_bits(), fx(-1, 2).as_bits());
    let sc = a.scale(Fix64::from_int(2));
    assert_eq!(sc.x.as_bits(), Fix64::from_int(1).as_bits());
    assert_eq!(sc.z.as_bits(), Fix64::from_int(6).as_bits());
    // dot: 1/4 - 1/16 - 3 = -45/16
    assert_eq!(a.dot(b).as_bits(), fx(-45, 16).as_bits());
    // |a|^2 = 1/4 + 1/16 + 9 = 149/16
    assert_eq!(a.abs_sq().as_bits(), fx(149, 16).as_bits());
}
