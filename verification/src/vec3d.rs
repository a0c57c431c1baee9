//! A 3-component vector, generic over its scalar type.
//!
//! The structural operations (`map`, `zip`, array conversion) work for any
//! scalar. Arithmetic is provided concretely for the two scalar types the
//! renderer uses: plain `i64` grid coordinates and `Fix64` continuous
//! coordinates. All arithmetic is component-wise and inherits the exact
//! wrapping semantics of the scalar operations.

use crate::fixed::{crop_to_i64, fix_mul, lemma_i64_product_fits, lemma_wrap_i64_congruent,
    lemma_wrap_i64_in_range, wrap_i64, Fix64};
use vstd::prelude::*;

verus! {

/// A vector with three named components.
#[derive(Clone, Copy, PartialEq, Eq, Debug)]
pub struct Vec3D<T> {
    pub x: T,
    pub y: T,
    pub z: T,
}

impl<T> Vec3D<T> {
    /// Apply `f` to each component.
    pub fn map<R, F: Fn(T) -> R>(self, f: F) -> (r: Vec3D<R>) where T: Copy
        requires
            call_requires(f, (self.x,)),
            call_requires(f, (self.y,)),
            call_requires(f, (self.z,)),
        ensures
            call_ensures(f, (self.x,), r.x),
            call_ensures(f, (self.y,), r.y),
            call_ensures(f, (self.z,), r.z),
    {
        Vec3D { x: f(self.x), y: f(self.y), z: f(self.z) }
    }

    /// Borrow each component.
    pub fn as_ref(&self) -> (r: Vec3D<&T>)
        ensures
            *r.x == self.x,
            *r.y == self.y,
            *r.z == self.z,
    {
        Vec3D { x: &self.x, y: &self.y, z: &self.z }
    }

    /// Pair the components of two vectors.
    pub fn zip<R>(self, rhs: Vec3D<R>) -> (r: Vec3D<(T, R)>)
        ensures
            r.x == (self.x, rhs.x),
            r.y == (self.y, rhs.y),
            r.z == (self.z, rhs.z),
    {
        Vec3D { x: (self.x, rhs.x), y: (self.y, rhs.y), z: (self.z, rhs.z) }
    }

    /// The components in enumeration order `x`, `y`, `z`.
    pub fn into_array(self) -> (r: [T; 3])
        ensures
            r@ == seq![self.x, self.y, self.z],
    {
        let r = [self.x, self.y, self.z];
        proof {
            assert(r@ =~= seq![r[0], r[1], r[2]]);
        }
        r
    }

    /// Rebuild a vector from components in enumeration order.
    pub fn from_array(v: [T; 3]) -> (r: Vec3D<T>) where T: Copy
        ensures
            r.x == v@[0],
            r.y == v@[1],
            r.z == v@[2],
    {
        Vec3D { x: v[0], y: v[1], z: v[2] }
    }
}

impl Vec3D<i64> {
    /// Component-wise difference, wrapping like the underlying integer.
    pub fn sub_const(self, r: Self) -> (o: Self)
        ensures
            o.x == wrap_i64(self.x - r.x),
            o.y == wrap_i64(self.y - r.y),
            o.z == wrap_i64(self.z - r.z),
            i64::MIN <= self.x - r.x <= i64::MAX ==> o.x == self.x - r.x,
            i64::MIN <= self.y - r.y <= i64::MAX ==> o.y == self.y - r.y,
            i64::MIN <= self.z - r.z <= i64::MAX ==> o.z == self.z - r.z,
    {
        proof {
            broadcast use lemma_wrap_i64_in_range;
        }
        Vec3D {
            x: crop_to_i64(self.x as i128 - r.x as i128),
            y: crop_to_i64(self.y as i128 - r.y as i128),
            z: crop_to_i64(self.z as i128 - r.z as i128),
        }
    }

    /// Dot product on the underlying integers, wrapping on overflow.
    pub fn dot_const(self, rhs: Vec3D<i64>) -> (o: i64)
        ensures
            o == wrap_i64(self.x * rhs.x + self.y * rhs.y + self.z * rhs.z),
            i64::MIN <= self.x * rhs.x + self.y * rhs.y + self.z * rhs.z <= i64::MAX ==> o == self.x
                * rhs.x + self.y * rhs.y + self.z * rhs.z,
    {
        proof {
            lemma_i64_product_fits(self.x as int, rhs.x as int);
            lemma_i64_product_fits(self.y as int, rhs.y as int);
            lemma_i64_product_fits(self.z as int, rhs.z as int);
            broadcast use lemma_wrap_i64_in_range;
        }
        let p1 = crop_to_i64(self.x as i128 * rhs.x as i128);
        let p2 = crop_to_i64(p1 as i128 + self.y as i128 * rhs.y as i128);
        let p3 = crop_to_i64(p2 as i128 + self.z as i128 * rhs.z as i128);
        proof {
            lemma_wrap_i64_congruent(self.x * rhs.x, self.y * rhs.y);
            lemma_wrap_i64_congruent(
                self.x * rhs.x + self.y * rhs.y,
                self.z * rhs.z,
            );
        }
        p3
    }

    /// Squared magnitude on the underlying integers, wrapping on overflow.
    pub fn abs_sq_const(self) -> (o: i64)
        ensures
            o == wrap_i64(self.x * self.x + self.y * self.y + self.z * self.z),
            i64::MIN <= self.x * self.x + self.y * self.y + self.z * self.z <= i64::MAX ==> o
                == self.x * self.x + self.y * self.y + self.z * self.z,
    {
        self.dot_const(self)
    }
}

impl Vec3D<Fix64> {
    /// Component-wise sum.
    pub fn add(self, r: Self) -> (o: Self)
        ensures
            o.x@ == wrap_i64(self.x@ + r.x@),
            o.y@ == wrap_i64(self.y@ + r.y@),
            o.z@ == wrap_i64(self.z@ + r.z@),
            i64::MIN <= self.x@ + r.x@ <= i64::MAX ==> o.x@ == self.x@ + r.x@,
            i64::MIN <= self.y@ + r.y@ <= i64::MAX ==> o.y@ == self.y@ + r.y@,
            i64::MIN <= self.z@ + r.z@ <= i64::MAX ==> o.z@ == self.z@ + r.z@,
    {
        Vec3D { x: self.x.add(r.x), y: self.y.add(r.y), z: self.z.add(r.z) }
    }

    /// Component-wise difference.
    pub fn sub(self, r: Self) -> (o: Self)
        ensures
            o.x@ == wrap_i64(self.x@ - r.x@),
            o.y@ == wrap_i64(self.y@ - r.y@),
            o.z@ == wrap_i64(self.z@ - r.z@),
            i64::MIN <= self.x@ - r.x@ <= i64::MAX ==> o.x@ == self.x@ - r.x@,
            i64::MIN <= self.y@ - r.y@ <= i64::MAX ==> o.y@ == self.y@ - r.y@,
            i64::MIN <= self.z@ - r.z@ <= i64::MAX ==> o.z@ == self.z@ - r.z@,
    {
        Vec3D { x: self.x.sub(r.x), y: self.y.sub(r.y), z: self.z.sub(r.z) }
    }

    /// Component-wise negation.
    pub fn neg(self) -> (o: Self)
        ensures
            o.x@ == wrap_i64(-(self.x@ as int)),
            o.y@ == wrap_i64(-(self.y@ as int)),
            o.z@ == wrap_i64(-(self.z@ as int)),
    {
        Vec3D { x: self.x.neg(), y: self.y.neg(), z: self.z.neg() }
    }

    /// Multiply every component by the scalar `s`.
    pub fn scale(self, s: Fix64) -> (o: Self)
        ensures
            o.x@ == fix_mul(self.x@, s@),
            o.y@ == fix_mul(self.y@, s@),
            o.z@ == fix_mul(self.z@, s@),
    {
        Vec3D { x: self.x.mul(s), y: self.y.mul(s), z: self.z.mul(s) }
    }

    /// Dot product; the two adds wrap like every fixed-point sum.
    pub fn dot(self, rhs: Vec3D<Fix64>) -> (o: Fix64)
        ensures
            o@ == wrap_i64(
                wrap_i64(fix_mul(self.x@, rhs.x@) + fix_mul(self.y@, rhs.y@)) + fix_mul(
                    self.z@,
                    rhs.z@,
                ),
            ),
    {
        self.x.mul(rhs.x).add(self.y.mul(rhs.y)).add(self.z.mul(rhs.z))
    }

    /// Squared magnitude: the dot product with itself.
    pub fn abs_sq(self) -> (o: Fix64)
        ensures
            o@ == wrap_i64(
                wrap_i64(fix_mul(self.x@, self.x@) + fix_mul(self.y@, self.y@)) + fix_mul(
                    self.z@,
                    self.z@,
                ),
            ),
    {
        self.dot(self)
    }
}

} // verus!
