//! Exact three-component vectors and the row matrices built from them.

use crate::rat::{
    opt_v, rat_add_v, rat_div_v, rat_mul_v, rat_neg_v, rat_sub_v, Rat, RatV,
};
use vstd::prelude::*;

verus! {

/// The specification-level value of a vector.
pub struct Vec3V {
    pub x: RatV,
    pub y: RatV,
    pub z: RatV,
}

/// An exact vector in three dimensions.
#[derive(Clone, Copy, Debug, PartialEq, Eq, Structural)]
pub struct Vec3 {
    pub x: Rat,
    pub y: Rat,
    pub z: Rat,
}

impl View for Vec3 {
    type V = Vec3V;

    open spec fn view(&self) -> Vec3V {
        Vec3V { x: self.x@, y: self.y@, z: self.z@ }
    }
}

/// The view of an optional vector result.
pub open spec fn ov3(r: Option<Vec3>) -> Option<Vec3V> {
    match r {
        Some(v) => Some(v@),
        None => None,
    }
}

/// Mirror of componentwise addition.
pub open spec fn v3_add_v(a: Vec3V, b: Vec3V) -> Option<Vec3V> {
    match (rat_add_v(a.x, b.x), rat_add_v(a.y, b.y), rat_add_v(a.z, b.z)) {
        (Some(x), Some(y), Some(z)) => Some(Vec3V { x, y, z }),
        _ => None,
    }
}

/// Mirror of componentwise subtraction.
pub open spec fn v3_sub_v(a: Vec3V, b: Vec3V) -> Option<Vec3V> {
    match (rat_sub_v(a.x, b.x), rat_sub_v(a.y, b.y), rat_sub_v(a.z, b.z)) {
        (Some(x), Some(y), Some(z)) => Some(Vec3V { x, y, z }),
        _ => None,
    }
}

/// Mirror of scaling by a rational.
pub open spec fn v3_scale_v(a: Vec3V, s: RatV) -> Option<Vec3V> {
    match (rat_mul_v(a.x, s), rat_mul_v(a.y, s), rat_mul_v(a.z, s)) {
        (Some(x), Some(y), Some(z)) => Some(Vec3V { x, y, z }),
        _ => None,
    }
}

/// Mirror of the dot product: the three componentwise products summed left
/// to right.
pub open spec fn v3_dot_v(a: Vec3V, b: Vec3V) -> Option<RatV> {
    match (rat_mul_v(a.x, b.x), rat_mul_v(a.y, b.y), rat_mul_v(a.z, b.z)) {
        (Some(p1), Some(p2), Some(p3)) => match rat_add_v(p1, p2) {
            Some(s) => rat_add_v(s, p3),
            None => None,
        },
        _ => None,
    }
}

/// Mirror of one cross-product component: `p * q - r * s`.
pub open spec fn cross_term_v(p: RatV, q: RatV, r: RatV, s: RatV) -> Option<RatV> {
    match (rat_mul_v(p, q), rat_mul_v(r, s)) {
        (Some(u), Some(w)) => rat_sub_v(u, w),
        _ => None,
    }
}

/// Mirror of the cross product.
pub open spec fn v3_cross_v(a: Vec3V, b: Vec3V) -> Option<Vec3V> {
    match (
        cross_term_v(a.y, b.z, a.z, b.y),
        cross_term_v(a.z, b.x, a.x, b.z),
        cross_term_v(a.x, b.y, a.y, b.x),
    ) {
        (Some(x), Some(y), Some(z)) => Some(Vec3V { x, y, z }),
        _ => None,
    }
}

/// Mirror of the squared norm.
pub open spec fn v3_norm2_v(a: Vec3V) -> Option<RatV> {
    v3_dot_v(a, a)
}

/// Mirror of the squared distance between two points.
pub open spec fn v3_dist2_v(a: Vec3V, b: Vec3V) -> Option<RatV> {
    match v3_sub_v(a, b) {
        Some(d) => v3_dot_v(d, d),
        None => None,
    }
}

/// A vector whose components are all zero in value.
pub open spec fn v3_is_zero_v(a: Vec3V) -> bool {
    a.x.n == 0 && a.y.n == 0 && a.z.n == 0
}

/// Every component of the vector value has a positive denominator.
pub open spec fn v3_wf(a: Vec3V) -> bool {
    a.x.d > 0 && a.y.d > 0 && a.z.d > 0
}

/// A successful dot product of a vector with itself is nonnegative, and
/// strictly positive unless the vector is zero.
pub proof fn lemma_dot_self_nonneg(a: Vec3V, c: RatV)
    requires
        v3_wf(a),
        v3_dot_v(a, a) == Some(c),
    ensures
        c.d > 0,
        c.n >= 0,
        !v3_is_zero_v(a) ==> c.n > 0,
{
    let p1 = rat_mul_v(a.x, a.x).unwrap();
    let p2 = rat_mul_v(a.y, a.y).unwrap();
    let p3 = rat_mul_v(a.z, a.z).unwrap();
    let s = rat_add_v(p1, p2).unwrap();
    crate::rat::lemma_mul_v_props(a.x, a.x, p1);
    crate::rat::lemma_mul_v_props(a.y, a.y, p2);
    crate::rat::lemma_mul_v_props(a.z, a.z, p3);
    crate::rat::lemma_add_v_nonneg(p1, p2, s);
    crate::rat::lemma_add_v_nonneg(s, p3, c);
}

/// The cross product with a zero vector on the right is zero in value.
pub proof fn lemma_cross_zero_right(a: Vec3V, b: Vec3V, c: Vec3V)
    requires
        v3_wf(a),
        v3_wf(b),
        v3_is_zero_v(b),
        v3_cross_v(a, b) == Some(c),
    ensures
        v3_is_zero_v(c),
        v3_wf(c),
{
    lemma_cross_term_zero(a.y, b.z, a.z, b.y, c.x);
    lemma_cross_term_zero(a.z, b.x, a.x, b.z, c.y);
    lemma_cross_term_zero(a.x, b.y, a.y, b.x, c.z);
}

/// One cross-product component vanishes when both of its factors from
/// the right-hand vector are zero in value.
proof fn lemma_cross_term_zero(p: RatV, q: RatV, r: RatV, s: RatV, t: RatV)
    requires
        p.d > 0,
        q.d > 0,
        r.d > 0,
        s.d > 0,
        q.n == 0,
        s.n == 0,
        cross_term_v(p, q, r, s) == Some(t),
    ensures
        t.n == 0,
        t.d > 0,
{
    let u = rat_mul_v(p, q).unwrap();
    let w = rat_mul_v(r, s).unwrap();
    crate::rat::lemma_mul_v_props(p, q, u);
    crate::rat::lemma_mul_v_props(r, s, w);
    crate::rat::lemma_add_v_nonneg(u, crate::rat::rat_neg_v(w), t);
}

/// The dot product with a zero vector on the right is zero in value.
pub proof fn lemma_dot_zero_right(a: Vec3V, b: Vec3V, d: RatV)
    requires
        v3_wf(a),
        v3_wf(b),
        v3_is_zero_v(b),
        v3_dot_v(a, b) == Some(d),
    ensures
        d.n == 0,
        d.d > 0,
{
    let p1 = rat_mul_v(a.x, b.x).unwrap();
    let p2 = rat_mul_v(a.y, b.y).unwrap();
    let p3 = rat_mul_v(a.z, b.z).unwrap();
    let s = rat_add_v(p1, p2).unwrap();
    crate::rat::lemma_mul_v_props(a.x, b.x, p1);
    crate::rat::lemma_mul_v_props(a.y, b.y, p2);
    crate::rat::lemma_mul_v_props(a.z, b.z, p3);
    crate::rat::lemma_add_v_nonneg(p1, p2, s);
    crate::rat::lemma_add_v_nonneg(s, p3, d);
}

impl Vec3 {
    /// The vector with the given components.
    pub fn new(x: Rat, y: Rat, z: Rat) -> (r: Vec3)
        ensures
            r@ == (Vec3V { x: x@, y: y@, z: z@ }),
    {
        Vec3 { x, y, z }
    }

    /// The exact componentwise sum.
    pub fn add(&self, o: &Vec3) -> (r: Option<Vec3>)
        ensures
            ov3(r) == v3_add_v(self@, o@),
    {
        let x = match self.x.add(&o.x) {
            Some(v) => v,
            None => {
                return None;
            },
        };
        let y = match self.y.add(&o.y) {
            Some(v) => v,
            None => {
                return None;
            },
        };
        let z = match self.z.add(&o.z) {
            Some(v) => v,
            None => {
                return None;
            },
        };
        Some(Vec3 { x, y, z })
    }

    /// The exact componentwise difference.
    pub fn sub(&self, o: &Vec3) -> (r: Option<Vec3>)
        ensures
            ov3(r) == v3_sub_v(self@, o@),
    {
        let x = match self.x.sub(&o.x) {
            Some(v) => v,
            None => {
                return None;
            },
        };
        let y = match self.y.sub(&o.y) {
            Some(v) => v,
            None => {
                return None;
            },
        };
        let z = match self.z.sub(&o.z) {
            Some(v) => v,
            None => {
                return None;
            },
        };
        Some(Vec3 { x, y, z })
    }

    /// The exact scaling by `s`.
    pub fn scale(&self, s: &Rat) -> (r: Option<Vec3>)
        ensures
            ov3(r) == v3_scale_v(self@, s@),
    {
        let x = match self.x.mul(s) {
            Some(v) => v,
            None => {
                return None;
            },
        };
        let y = match self.y.mul(s) {
            Some(v) => v,
            None => {
                return None;
            },
        };
        let z = match self.z.mul(s) {
            Some(v) => v,
            None => {
                return None;
            },
        };
        Some(Vec3 { x, y, z })
    }

    /// The exact dot product.
    pub fn dot(&self, o: &Vec3) -> (r: Option<Rat>)
        ensures
            opt_v(r) == v3_dot_v(self@, o@),
    {
        let p1 = match self.x.mul(&o.x) {
            Some(v) => v,
            None => {
                return None;
            },
        };
        let p2 = match self.y.mul(&o.y) {
            Some(v) => v,
            None => {
                return None;
            },
        };
        let p3 = match self.z.mul(&o.z) {
            Some(v) => v,
            None => {
                return None;
            },
        };
        let s = match p1.add(&p2) {
            Some(v) => v,
            None => {
                return None;
            },
        };
        s.add(&p3)
    }

    /// The exact cross product.
    pub fn cross(&self, o: &Vec3) -> (r: Option<Vec3>)
        ensures
            ov3(r) == v3_cross_v(self@, o@),
    {
        let x = match cross_term(&self.y, &o.z, &self.z, &o.y) {
            Some(v) => v,
            None => {
                return None;
            },
        };
        let y = match cross_term(&self.z, &o.x, &self.x, &o.z) {
            Some(v) => v,
            None => {
                return None;
            },
        };
        let z = match cross_term(&self.x, &o.y, &self.y, &o.x) {
            Some(v) => v,
            None => {
                return None;
            },
        };
        Some(Vec3 { x, y, z })
    }

    /// The exact squared norm.
    pub fn norm2(&self) -> (r: Option<Rat>)
        ensures
            opt_v(r) == v3_norm2_v(self@),
    {
        self.dot(self)
    }

    /// The exact squared distance to `o`.
    pub fn dist2(&self, o: &Vec3) -> (r: Option<Rat>)
        ensures
            opt_v(r) == v3_dist2_v(self@, o@),
    {
        let d = match self.sub(o) {
            Some(v) => v,
            None => {
                return None;
            },
        };
        d.dot(&d)
    }

    /// Whether every component is zero.
    pub fn is_zero(&self) -> (b: bool)
        ensures
            b == v3_is_zero_v(self@),
    {
        self.x.is_zero() && self.y.is_zero() && self.z.is_zero()
    }
}

/// One cross-product component, `p * q - r * s`.
fn cross_term(p: &Rat, q: &Rat, r: &Rat, s: &Rat) -> (t: Option<Rat>)
    ensures
        opt_v(t) == cross_term_v(p@, q@, r@, s@),
{
    let u = match p.mul(q) {
        Some(v) => v,
        None => {
            return None;
        },
    };
    let w = match r.mul(s) {
        Some(v) => v,
        None => {
            return None;
        },
    };
    u.sub(&w)
}

/// The specification-level value of a matrix held as three rows.
pub struct Mat3V {
    pub r0: Vec3V,
    pub r1: Vec3V,
    pub r2: Vec3V,
}

/// An exact 3-by-3 matrix held as three rows.
#[derive(Clone, Copy, Debug, PartialEq, Eq, Structural)]
pub struct Mat3 {
    pub r0: Vec3,
    pub r1: Vec3,
    pub r2: Vec3,
}

impl View for Mat3 {
    type V = Mat3V;

    open spec fn view(&self) -> Mat3V {
        Mat3V { r0: self.r0@, r1: self.r1@, r2: self.r2@ }
    }
}

/// The view of an optional matrix result.
pub open spec fn omat(r: Option<Mat3>) -> Option<Mat3V> {
    match r {
        Some(m) => Some(m@),
        None => None,
    }
}

/// Mirror of a matrix-vector product: the dot of each row with `v`.
pub open spec fn mat3_mul_vec_v(m: Mat3V, v: Vec3V) -> Option<Vec3V> {
    match (v3_dot_v(m.r0, v), v3_dot_v(m.r1, v), v3_dot_v(m.r2, v)) {
        (Some(x), Some(y), Some(z)) => Some(Vec3V { x, y, z }),
        _ => None,
    }
}

/// Mirror of inverting the matrix whose columns are `c0`, `c1`, `c2` by the
/// adjugate formula. The outer `None` means the arithmetic left the
/// representable range; the inner `None` means the matrix is singular.
pub open spec fn mat3_inverse_cols_v(c0: Vec3V, c1: Vec3V, c2: Vec3V) -> Option<
    Option<Mat3V>,
> {
    match v3_cross_v(c1, c2) {
        Some(a0) => match v3_dot_v(c0, a0) {
            Some(det) => if det.n == 0 {
                Some(None)
            } else {
                match (v3_cross_v(c2, c0), v3_cross_v(c0, c1)) {
                    (Some(a1), Some(a2)) => match rat_div_v(
                        RatV { n: 1, d: 1 },
                        det,
                    ) {
                        Some(inv_det) => match (
                            v3_scale_v(a0, inv_det),
                            v3_scale_v(a1, inv_det),
                            v3_scale_v(a2, inv_det),
                        ) {
                            (Some(r0), Some(r1), Some(r2)) => Some(
                                Some(Mat3V { r0, r1, r2 }),
                            ),
                            _ => None,
                        },
                        None => None,
                    },
                    _ => None,
                }
            },
            None => None,
        },
        None => None,
    }
}

impl Mat3 {
    /// The exact matrix-vector product.
    pub fn mul_vec(&self, v: &Vec3) -> (r: Option<Vec3>)
        ensures
            ov3(r) == mat3_mul_vec_v(self@, v@),
    {
        let x = match self.r0.dot(v) {
            Some(w) => w,
            None => {
                return None;
            },
        };
        let y = match self.r1.dot(v) {
            Some(w) => w,
            None => {
                return None;
            },
        };
        let z = match self.r2.dot(v) {
            Some(w) => w,
            None => {
                return None;
            },
        };
        Some(Vec3 { x, y, z })
    }

    /// The exact inverse of the matrix whose columns are `c0`, `c1`, `c2`,
    /// by the adjugate formula; `Ok(None)` when the matrix is singular.
    pub fn inverse_cols(c0: &Vec3, c1: &Vec3, c2: &Vec3) -> (r: Option<
        Option<Mat3>,
    >)
        ensures
            match r {
                Some(Some(m)) => mat3_inverse_cols_v(c0@, c1@, c2@) == Some(
                    Some(m@),
                ),
                Some(None) => mat3_inverse_cols_v(c0@, c1@, c2@) == Some(
                    None::<Mat3V>,
                ),
                None => mat3_inverse_cols_v(c0@, c1@, c2@) == None::<
                    Option<Mat3V>,
                >,
            },
    {
        let a0 = match c1.cross(c2) {
            Some(v) => v,
            None => {
                return None;
            },
        };
        let det = match c0.dot(&a0) {
            Some(v) => v,
            None => {
                return None;
            },
        };
        if det.is_zero() {
            return Some(None);
        }
        let a1 = match c2.cross(c0) {
            Some(v) => v,
            None => {
                return None;
            },
        };
        let a2 = match c0.cross(c1) {
            Some(v) => v,
            None => {
                return None;
            },
        };
        let inv_det = match Rat::from_int(1).div(&det) {
            Some(v) => v,
            None => {
                return None;
            },
        };
        let r0 = match a0.scale(&inv_det) {
            Some(v) => v,
            None => {
                return None;
            },
        };
        let r1 = match a1.scale(&inv_det) {
            Some(v) => v,
            None => {
                return None;
            },
        };
        let r2 = match a2.scale(&inv_det) {
            Some(v) => v,
            None => {
                return None;
            },
        };
        Some(Some(Mat3 { r0, r1, r2 }))
    }
}

} // verus!
