//! The shapes a scene can hold and their exact ray-intersection tests.

use crate::color::{Color, ColorV};
use crate::rat::{
    rat_add_v, rat_div_v, rat_le_v, rat_mul_v, rat_sqrt_v, rat_sub_v, NumError,
    Rat, RatV,
};
use crate::vec3::{
    lemma_dot_self_nonneg, mat3_inverse_cols_v, mat3_mul_vec_v, v3_add_v,
    v3_cross_v, v3_dot_v, v3_scale_v, v3_sub_v, Mat3, Mat3V, Vec3, Vec3V,
};
use vstd::prelude::*;

verus! {

/// The view of an intersection result.
pub open spec fn lift_hit(r: Result<Option<Vec3>, NumError>) -> Result<
    Option<Vec3V>,
    NumError,
> {
    match r {
        Ok(Some(p)) => Ok(Some(p@)),
        Ok(None) => Ok(None),
        Err(e) => Err(e),
    }
}

/// The specification-level value of a sphere.
pub struct SphereV {
    pub o: Vec3V,
    pub r: RatV,
    pub ambient_color: ColorV,
    pub diffuse_color: ColorV,
    pub specular_color: ColorV,
    pub shininess: nat,
}

/// A sphere with per-point-constant material.
#[derive(Clone, Copy, Debug, PartialEq, Eq, Structural)]
pub struct Sphere {
    /// The origin of this sphere.
    pub o: Vec3,
    /// The radius of this sphere.
    pub r: Rat,
    /// The color of this sphere in ambient white light.
    pub ambient_color: Color,
    /// The color of the diffuse reflection of white light off this sphere.
    pub diffuse_color: Color,
    /// The color of the specular reflection of white light off this sphere.
    pub specular_color: Color,
    /// The shininess exponent of this sphere.
    pub shininess: u32,
}

impl View for Sphere {
    type V = SphereV;

    open spec fn view(&self) -> SphereV {
        SphereV {
            o: self.o@,
            r: self.r@,
            ambient_color: self.ambient_color@,
            diffuse_color: self.diffuse_color@,
            specular_color: self.specular_color@,
            shininess: self.shininess as nat,
        }
    }
}

/// Mirror of the sphere intersection after the early rejection: project
/// the center onto the ray and compare the squared radius with the squared
/// distance to the projection.
#[verifier::opaque]
pub open spec fn sphere_project_v(
    s: SphereV,
    l0: Vec3V,
    l: Vec3V,
    dl: RatV,
    r2: RatV,
) -> Result<Option<Vec3V>, NumError> {
    match v3_dot_v(l, l) {
        None => Err(NumError::Range),
        Some(ln2) => if ln2.n == 0 {
            Err(NumError::DivisionByZero)
        } else {
            match rat_div_v(dl, ln2) {
                None => Err(NumError::Range),
                Some(t) => match v3_scale_v(l, t) {
                    None => Err(NumError::Range),
                    Some(tl) => match v3_add_v(l0, tl) {
                        None => Err(NumError::Range),
                        Some(p) => match v3_sub_v(s.o, p) {
                            None => Err(NumError::Range),
                            Some(op) => match v3_dot_v(op, op) {
                                None => Err(NumError::Range),
                                Some(opn2) => match rat_sub_v(r2, opn2) {
                                    None => Err(NumError::Range),
                                    Some(k2) => if k2.n < 0 {
                                        Ok(None)
                                    } else {
                                        sphere_hit_v(l, p, k2, ln2)
                                    },
                                },
                            },
                        },
                    },
                },
            }
        },
    }
}

/// Mirror of stepping back from the projection to the near intersection
/// point: `p - sqrt(k2 / |l|^2) * l`.
#[verifier::opaque]
pub open spec fn sphere_hit_v(l: Vec3V, p: Vec3V, k2: RatV, ln2: RatV) -> Result<
    Option<Vec3V>,
    NumError,
> {
    match rat_div_v(k2, ln2) {
        None => Err(NumError::Range),
        Some(s2) => match rat_sqrt_v(s2) {
            None => Err(NumError::Inexact),
            Some(sq) => match v3_scale_v(l, sq) {
                None => Err(NumError::Range),
                Some(sl) => match v3_sub_v(p, sl) {
                    None => Err(NumError::Range),
                    Some(hit) => Ok(Some(hit)),
                },
            },
        },
    }
}

/// Mirror of the full sphere intersection, early rejection included: a ray
/// that points away from the center while its origin lies on or outside
/// the sphere misses.
#[verifier::opaque]
pub open spec fn sphere_intersect_v(s: SphereV, l0: Vec3V, l: Vec3V) -> Result<
    Option<Vec3V>,
    NumError,
> {
    match v3_sub_v(s.o, l0) {
        None => Err(NumError::Range),
        Some(d) => match v3_dot_v(d, l) {
            None => Err(NumError::Range),
            Some(dl) => match v3_dot_v(d, d) {
                None => Err(NumError::Range),
                Some(dn2) => match rat_mul_v(s.r, s.r) {
                    None => Err(NumError::Range),
                    Some(r2) => if dl.n <= 0 && (s.r.n <= 0 || rat_le_v(
                        r2,
                        dn2,
                    )) {
                        Ok(None)
                    } else {
                        sphere_project_v(s, l0, l, dl, r2)
                    },
                },
            },
        },
    }
}

impl Sphere {
    /// The color of this sphere at `_p` in ambient white light.
    pub fn ambient_color_at(&self, _p: &Vec3) -> (c: Color)
        ensures
            c@ == self@.ambient_color,
    {
        self.ambient_color
    }

    /// The color of the diffuse reflection of white light off this sphere
    /// at `_p`.
    pub fn diffuse_color_at(&self, _p: &Vec3) -> (c: Color)
        ensures
            c@ == self@.diffuse_color,
    {
        self.diffuse_color
    }

    /// The color of the specular reflection of white light off this sphere
    /// at `_p`.
    pub fn specular_color_at(&self, _p: &Vec3) -> (c: Color)
        ensures
            c@ == self@.specular_color,
    {
        self.specular_color
    }

    /// The shininess of this sphere at `_p`.
    pub fn shininess_at(&self, _p: &Vec3) -> (h: u32)
        ensures
            h as nat == self@.shininess,
    {
        self.shininess
    }

    /// The point at which a ray from `l0` in direction `l` first meets
    /// this sphere, exactly as [`sphere_intersect_v`] names it.
    pub fn intersect_ray(&self, l0: &Vec3, l: &Vec3) -> (r: Result<
        Option<Vec3>,
        NumError,
    >)
        ensures
            lift_hit(r) == sphere_intersect_v(self@, l0@, l@),
    {
        proof {
            reveal(sphere_intersect_v);
            reveal(sphere_project_v);
            reveal(sphere_hit_v);
        }
        let d = match self.o.sub(l0) {
            Some(v) => v,
            None => {
                return Err(NumError::Range);
            },
        };
        let dl = match d.dot(l) {
            Some(v) => v,
            None => {
                return Err(NumError::Range);
            },
        };
        let dn2 = match d.dot(&d) {
            Some(v) => v,
            None => {
                return Err(NumError::Range);
            },
        };
        let r2 = match self.r.mul(&self.r) {
            Some(v) => v,
            None => {
                return Err(NumError::Range);
            },
        };
        if (dl.is_neg() || dl.is_zero()) && ((self.r.is_neg() || self.r.is_zero())
            || r2.le(&dn2)) {
            return Ok(None);
        }
        let ln2 = match l.dot(l) {
            Some(v) => v,
            None => {
                return Err(NumError::Range);
            },
        };
        if ln2.is_zero() {
            return Err(NumError::DivisionByZero);
        }
        let t = match dl.div(&ln2) {
            Some(v) => v,
            None => {
                return Err(NumError::Range);
            },
        };
        let tl = match l.scale(&t) {
            Some(v) => v,
            None => {
                return Err(NumError::Range);
            },
        };
        let p = match l0.add(&tl) {
            Some(v) => v,
            None => {
                return Err(NumError::Range);
            },
        };
        let op = match self.o.sub(&p) {
            Some(v) => v,
            None => {
                return Err(NumError::Range);
            },
        };
        let opn2 = match op.dot(&op) {
            Some(v) => v,
            None => {
                return Err(NumError::Range);
            },
        };
        let k2 = match r2.sub(&opn2) {
            Some(v) => v,
            None => {
                return Err(NumError::Range);
            },
        };
        if k2.is_neg() {
            return Ok(None);
        }
        let s2 = match k2.div(&ln2) {
            Some(v) => v,
            None => {
                return Err(NumError::Range);
            },
        };
        proof {
            use_type_invariant(&l.x);
            use_type_invariant(&l.y);
            use_type_invariant(&l.z);
            use_type_invariant(&k2);
            use_type_invariant(&ln2);
            lemma_dot_self_nonneg(l@, ln2@);
            crate::rat::lemma_div_v_sign(k2@, ln2@, s2@);
        }
        let sq = match s2.sqrt_exact() {
            Some(v) => v,
            None => {
                return Err(NumError::Inexact);
            },
        };
        let sl = match l.scale(&sq) {
            Some(v) => v,
            None => {
                return Err(NumError::Range);
            },
        };
        let hit = match p.sub(&sl) {
            Some(v) => v,
            None => {
                return Err(NumError::Range);
            },
        };
        Ok(Some(hit))
    }

    /// A vector normal to this sphere at `p`: the displacement from the
    /// center, whose magnitude is the radius, not unit length.
    pub fn normal_at(&self, p: &Vec3) -> (r: Option<Vec3>)
        ensures
            crate::vec3::ov3(r) == v3_sub_v(p@, self@.o),
    {
        p.sub(&self.o)
    }
}

/// The specification-level value of a triangle.
pub struct TriangleV {
    pub a: Vec3V,
    pub b: Vec3V,
    pub c: Vec3V,
    pub ambient_color: ColorV,
    pub diffuse_color: ColorV,
    pub specular_color: ColorV,
    pub shininess: nat,
}

/// A triangle with per-point-constant material.
#[derive(Clone, Copy, Debug, PartialEq, Eq, Structural)]
pub struct Triangle {
    /// The first vertex of this triangle.
    pub a: Vec3,
    /// The second vertex of this triangle.
    pub b: Vec3,
    /// The third vertex of this triangle.
    pub c: Vec3,
    /// The color of this triangle in ambient white light.
    pub ambient_color: Color,
    /// The color of the diffuse reflection of white light off this
    /// triangle.
    pub diffuse_color: Color,
    /// The color of the specular reflection of white light off this
    /// triangle.
    pub specular_color: Color,
    /// The shininess exponent of this triangle.
    pub shininess: u32,
}

impl View for Triangle {
    type V = TriangleV;

    open spec fn view(&self) -> TriangleV {
        TriangleV {
            a: self.a@,
            b: self.b@,
            c: self.c@,
            ambient_color: self.ambient_color@,
            diffuse_color: self.diffuse_color@,
            specular_color: self.specular_color@,
            shininess: self.shininess as nat,
        }
    }
}

/// Mirror of the derived, non-normalized triangle normal
/// `(b - a) x (c - a)`.
pub open spec fn tri_normal_v(t: TriangleV) -> Option<Vec3V> {
    match (v3_sub_v(t.b, t.a), v3_sub_v(t.c, t.a)) {
        (Some(e1), Some(e2)) => v3_cross_v(e1, e2),
        _ => None,
    }
}

/// Mirror of the containment test at the plane point `p`: invert the
/// change-of-basis matrix with columns `e1`, `e2`, `n` and accept `p` when
/// the first two barycentric-like coordinates are nonnegative and sum to
/// at most one. A singular matrix means a degenerate triangle and no hit.
#[verifier::opaque]
pub open spec fn tri_inside_v(
    t: TriangleV,
    e1: Vec3V,
    e2: Vec3V,
    n: Vec3V,
    p: Vec3V,
) -> Result<Option<Vec3V>, NumError> {
    match mat3_inverse_cols_v(e1, e2, n) {
        None => Err(NumError::Range),
        Some(None) => Ok(None),
        Some(Some(m)) => match v3_sub_v(p, t.a) {
            None => Err(NumError::Range),
            Some(pa) => match mat3_mul_vec_v(m, pa) {
                None => Err(NumError::Range),
                Some(q) => if q.x.n >= 0 && q.y.n >= 0 {
                    match rat_add_v(q.x, q.y) {
                        None => Err(NumError::Range),
                        Some(vw) => if rat_le_v(vw, RatV { n: 1, d: 1 }) {
                            Ok(Some(p))
                        } else {
                            Ok(None)
                        },
                    }
                } else {
                    Ok(None)
                },
            },
        },
    }
}

/// Mirror of the full triangle intersection. A ray exactly parallel to
/// the plane never hits — the comparison is exact equality, preserved
/// deliberately — and a plane point behind the origin (`k < 0`) misses.
#[verifier::opaque]
pub open spec fn tri_intersect_v(t: TriangleV, l0: Vec3V, l: Vec3V) -> Result<
    Option<Vec3V>,
    NumError,
> {
    match v3_sub_v(t.b, t.a) {
        None => Err(NumError::Range),
        Some(e1) => match v3_sub_v(t.c, t.a) {
            None => Err(NumError::Range),
            Some(e2) => match v3_cross_v(e1, e2) {
                None => Err(NumError::Range),
                Some(n) => match v3_dot_v(n, l) {
                    None => Err(NumError::Range),
                    Some(dnl) => if dnl.n == 0 {
                        Ok(None)
                    } else {
                        match v3_sub_v(t.a, l0) {
                            None => Err(NumError::Range),
                            Some(ao) => match v3_dot_v(n, ao) {
                                None => Err(NumError::Range),
                                Some(dna) => match rat_div_v(dna, dnl) {
                                    None => Err(NumError::Range),
                                    Some(k) => if k.n < 0 {
                                        Ok(None)
                                    } else {
                                        match v3_scale_v(l, k) {
                                            None => Err(NumError::Range),
                                            Some(kl) => match v3_add_v(l0, kl) {
                                                None => Err(NumError::Range),
                                                Some(p) => tri_inside_v(
                                                    t,
                                                    e1,
                                                    e2,
                                                    n,
                                                    p,
                                                ),
                                            },
                                        }
                                    },
                                },
                            },
                        }
                    },
                },
            },
        },
    }
}

impl Triangle {
    /// The derived, non-normalized normal `(b - a) x (c - a)`.
    pub fn normal(&self) -> (r: Option<Vec3>)
        ensures
            crate::vec3::ov3(r) == tri_normal_v(self@),
    {
        let e1 = match self.b.sub(&self.a) {
            Some(v) => v,
            None => {
                return None;
            },
        };
        let e2 = match self.c.sub(&self.a) {
            Some(v) => v,
            None => {
                return None;
            },
        };
        e1.cross(&e2)
    }

    /// The color of this triangle at `_p` in ambient white light.
    pub fn ambient_color_at(&self, _p: &Vec3) -> (c: Color)
        ensures
            c@ == self@.ambient_color,
    {
        self.ambient_color
    }

    /// The color of the diffuse reflection of white light off this
    /// triangle at `_p`.
    pub fn diffuse_color_at(&self, _p: &Vec3) -> (c: Color)
        ensures
            c@ == self@.diffuse_color,
    {
        self.diffuse_color
    }

    /// The color of the specular reflection of white light off this
    /// triangle at `_p`.
    pub fn specular_color_at(&self, _p: &Vec3) -> (c: Color)
        ensures
            c@ == self@.specular_color,
    {
        self.specular_color
    }

    /// The shininess of this triangle at `_p`.
    pub fn shininess_at(&self, _p: &Vec3) -> (h: u32)
        ensures
            h as nat == self@.shininess,
    {
        self.shininess
    }

    /// The point at which a ray from `l0` in direction `l` meets this
    /// triangle, exactly as [`tri_intersect_v`] names it.
    pub fn intersect_ray(&self, l0: &Vec3, l: &Vec3) -> (r: Result<
        Option<Vec3>,
        NumError,
    >)
        ensures
            lift_hit(r) == tri_intersect_v(self@, l0@, l@),
    {
        proof {
            reveal(tri_intersect_v);
        }
        let e1 = match self.b.sub(&self.a) {
            Some(v) => v,
            None => {
                return Err(NumError::Range);
            },
        };
        let e2 = match self.c.sub(&self.a) {
            Some(v) => v,
            None => {
                return Err(NumError::Range);
            },
        };
        let n = match e1.cross(&e2) {
            Some(v) => v,
            None => {
                return Err(NumError::Range);
            },
        };
        let dnl = match n.dot(l) {
            Some(v) => v,
            None => {
                return Err(NumError::Range);
            },
        };
        if dnl.is_zero() {
            return Ok(None);
        }
        let ao = match self.a.sub(l0) {
            Some(v) => v,
            None => {
                return Err(NumError::Range);
            },
        };
        let dna = match n.dot(&ao) {
            Some(v) => v,
            None => {
                return Err(NumError::Range);
            },
        };
        let k = match dna.div(&dnl) {
            Some(v) => v,
            None => {
                return Err(NumError::Range);
            },
        };
        if k.is_neg() {
            return Ok(None);
        }
        let kl = match l.scale(&k) {
            Some(v) => v,
            None => {
                return Err(NumError::Range);
            },
        };
        let p = match l0.add(&kl) {
            Some(v) => v,
            None => {
                return Err(NumError::Range);
            },
        };
        tri_inside(self, &e1, &e2, &n, &p)
    }

    /// A vector normal to this triangle at `_p`: the derived normal,
    /// independent of the point (flat shading).
    pub fn normal_at(&self, _p: &Vec3) -> (r: Option<Vec3>)
        ensures
            crate::vec3::ov3(r) == tri_normal_v(self@),
    {
        self.normal()
    }
}

/// The containment test shared by the plain and the caching triangle.
fn tri_inside(t: &Triangle, e1: &Vec3, e2: &Vec3, n: &Vec3, p: &Vec3) -> (r:
    Result<Option<Vec3>, NumError>)
    ensures
        lift_hit(r) == tri_inside_v(t@, e1@, e2@, n@, p@),
{
    proof {
        reveal(tri_inside_v);
    }
    let m = match Mat3::inverse_cols(e1, e2, n) {
        Some(Some(m)) => m,
        Some(None) => {
            return Ok(None);
        },
        None => {
            return Err(NumError::Range);
        },
    };
    bary_inside(t, &m, p)
}

/// The containment test once the inverse matrix is at hand.
fn bary_inside(t: &Triangle, m: &Mat3, p: &Vec3) -> (r: Result<
    Option<Vec3>,
    NumError,
>)
    ensures
        ({
            let spec_r = match v3_sub_v(p@, t@.a) {
                None => Err::<Option<Vec3V>, NumError>(NumError::Range),
                Some(pa) => match mat3_mul_vec_v(m@, pa) {
                    None => Err(NumError::Range),
                    Some(q) => if q.x.n >= 0 && q.y.n >= 0 {
                        match rat_add_v(q.x, q.y) {
                            None => Err(NumError::Range),
                            Some(vw) => if rat_le_v(vw, RatV { n: 1, d: 1 }) {
                                Ok(Some(p@))
                            } else {
                                Ok(None)
                            },
                        }
                    } else {
                        Ok(None)
                    },
                },
            };
            lift_hit(r) == spec_r
        }),
{
    let pa = match p.sub(&t.a) {
        Some(v) => v,
        None => {
            return Err(NumError::Range);
        },
    };
    let q = match m.mul_vec(&pa) {
        Some(v) => v,
        None => {
            return Err(NumError::Range);
        },
    };
    if q.x.is_neg() || q.y.is_neg() {
        return Ok(None);
    }
    let vw = match q.x.add(&q.y) {
        Some(v) => v,
        None => {
            return Err(NumError::Range);
        },
    };
    if vw.le(&Rat::from_int(1)) {
        Ok(Some(*p))
    } else {
        Ok(None)
    }
}

/// The specification-level value of a caching triangle.
pub struct CachingTriangleV {
    pub inner: TriangleV,
    pub normal: Vec3V,
    pub bary: Mat3V,
}

/// Mirror of constructing a caching triangle: the derived normal and the
/// inverted change-of-basis matrix, or `Ok(None)` for a degenerate
/// triangle whose matrix is singular.
pub open spec fn ct_new_v(t: TriangleV) -> Result<Option<(Vec3V, Mat3V)>, NumError> {
    match v3_sub_v(t.b, t.a) {
        None => Err(NumError::Range),
        Some(e1) => match v3_sub_v(t.c, t.a) {
            None => Err(NumError::Range),
            Some(e2) => match v3_cross_v(e1, e2) {
                None => Err(NumError::Range),
                Some(n) => match mat3_inverse_cols_v(e1, e2, n) {
                    None => Err(NumError::Range),
                    Some(None) => Ok(None),
                    Some(Some(m)) => Ok(Some((n, m))),
                },
            },
        },
    }
}

/// The cached fields hold exactly what construction computes for the
/// inner triangle.
pub open spec fn ct_wf_v(t: TriangleV, n: Vec3V, m: Mat3V) -> bool {
    ct_new_v(t) == Ok::<Option<(Vec3V, Mat3V)>, NumError>(Some((n, m)))
}

/// A triangle that precomputes its normal and its inverted
/// change-of-basis matrix once, instead of per ray. It answers every
/// query exactly as the plain triangle does.
#[derive(Clone, Copy, Debug, PartialEq, Eq, Structural)]
pub struct CachingTriangle {
    inner: Triangle,
    normal: Vec3,
    bary: Mat3,
}

impl View for CachingTriangle {
    type V = CachingTriangleV;

    closed spec fn view(&self) -> CachingTriangleV {
        CachingTriangleV {
            inner: self.inner@,
            normal: self.normal@,
            bary: self.bary@,
        }
    }
}

impl CachingTriangle {
    #[verifier::type_invariant]
    spec fn inv(self) -> bool {
        ct_wf_v(self.inner@, self.normal@, self.bary@)
    }

    /// Wraps `inner`, precomputing its normal and inverted
    /// change-of-basis matrix. Returns `Ok(None)` exactly when the
    /// matrix is singular, which is the one place degeneracy is
    /// rejected.
    pub fn new(inner: Triangle) -> (r: Result<Option<CachingTriangle>, NumError>)
        ensures
            match r {
                Ok(Some(ct)) => ct@.inner == inner@ && ct_wf_v(
                    inner@,
                    ct@.normal,
                    ct@.bary,
                ),
                Ok(None) => ct_new_v(inner@) == Ok::<Option<(Vec3V, Mat3V)>, NumError>(None),
                Err(e) => ct_new_v(inner@) == Err::<Option<(Vec3V, Mat3V)>,
                    NumError,
                >(e),
            },
    {
        let e1 = match inner.b.sub(&inner.a) {
            Some(v) => v,
            None => {
                return Err(NumError::Range);
            },
        };
        let e2 = match inner.c.sub(&inner.a) {
            Some(v) => v,
            None => {
                return Err(NumError::Range);
            },
        };
        let n = match e1.cross(&e2) {
            Some(v) => v,
            None => {
                return Err(NumError::Range);
            },
        };
        let m = match Mat3::inverse_cols(&e1, &e2, &n) {
            Some(Some(m)) => m,
            Some(None) => {
                return Ok(None);
            },
            None => {
                return Err(NumError::Range);
            },
        };
        Ok(Some(CachingTriangle { inner, normal: n, bary: m }))
    }

    /// Unwraps the inner triangle.
    pub fn into_inner(self) -> (t: Triangle)
        ensures
            t@ == self@.inner,
    {
        self.inner
    }

    /// The color of the inner triangle in ambient white light.
    pub fn ambient_color_at(&self, _p: &Vec3) -> (c: Color)
        ensures
            c@ == self@.inner.ambient_color,
    {
        self.inner.ambient_color
    }

    /// The color of the diffuse reflection off the inner triangle.
    pub fn diffuse_color_at(&self, _p: &Vec3) -> (c: Color)
        ensures
            c@ == self@.inner.diffuse_color,
    {
        self.inner.diffuse_color
    }

    /// The color of the specular reflection off the inner triangle.
    pub fn specular_color_at(&self, _p: &Vec3) -> (c: Color)
        ensures
            c@ == self@.inner.specular_color,
    {
        self.inner.specular_color
    }

    /// The shininess of the inner triangle.
    pub fn shininess_at(&self, _p: &Vec3) -> (h: u32)
        ensures
            h as nat == self@.inner.shininess,
    {
        self.inner.shininess
    }

    /// The point at which a ray from `l0` in direction `l` meets the
    /// inner triangle. The cached normal and matrix are used instead of
    /// recomputing them, and the answer is exactly the plain triangle's:
    /// the contract names the same mirror.
    pub fn intersect_ray(&self, l0: &Vec3, l: &Vec3) -> (r: Result<
        Option<Vec3>,
        NumError,
    >)
        ensures
            lift_hit(r) == tri_intersect_v(self@.inner, l0@, l@),
    {
        proof {
            reveal(tri_intersect_v);
            reveal(tri_inside_v);
            use_type_invariant(self);
        }
        let ghost t = self@.inner;
        let ghost e1v = v3_sub_v(t.b, t.a).unwrap();
        let ghost e2v = v3_sub_v(t.c, t.a).unwrap();
        proof {
            assert(v3_cross_v(e1v, e2v) == Some(self@.normal));
            assert(mat3_inverse_cols_v(e1v, e2v, self@.normal) == Some(
                Some(self@.bary),
            ));
        }
        let dnl = match self.normal.dot(l) {
            Some(v) => v,
            None => {
                return Err(NumError::Range);
            },
        };
        if dnl.is_zero() {
            return Ok(None);
        }
        let ao = match self.inner.a.sub(l0) {
            Some(v) => v,
            None => {
                return Err(NumError::Range);
            },
        };
        let dna = match self.normal.dot(&ao) {
            Some(v) => v,
            None => {
                return Err(NumError::Range);
            },
        };
        let k = match dna.div(&dnl) {
            Some(v) => v,
            None => {
                return Err(NumError::Range);
            },
        };
        if k.is_neg() {
            return Ok(None);
        }
        let kl = match l.scale(&k) {
            Some(v) => v,
            None => {
                return Err(NumError::Range);
            },
        };
        let p = match l0.add(&kl) {
            Some(v) => v,
            None => {
                return Err(NumError::Range);
            },
        };
        bary_inside(&self.inner, &self.bary, &p)
    }

    /// A vector normal to the inner triangle: the cached derived normal.
    pub fn normal_at(&self, _p: &Vec3) -> (n: Vec3)
        ensures
            tri_normal_v(self@.inner) == Some(n@),
    {
        proof {
            use_type_invariant(self);
        }
        self.normal
    }
}

/// The specification-level value of a shape.
pub enum ShapeV {
    Sphere(SphereV),
    Triangle(TriangleV),
    Caching(CachingTriangleV),
}

/// A shape that can appear in a scene: the closed set of variants the
/// renderer dispatches over.
#[derive(Clone, Copy, Debug, PartialEq, Eq, Structural)]
pub enum Shape {
    Sphere(Sphere),
    Triangle(Triangle),
    Caching(CachingTriangle),
}

impl View for Shape {
    type V = ShapeV;

    open spec fn view(&self) -> ShapeV {
        match self {
            Shape::Sphere(s) => ShapeV::Sphere(s@),
            Shape::Triangle(t) => ShapeV::Triangle(t@),
            Shape::Caching(ct) => ShapeV::Caching(ct@),
        }
    }
}

/// Mirror of dispatching the intersection test. A caching triangle
/// answers exactly as its inner triangle.
#[verifier::opaque]
pub open spec fn shape_intersect_v(s: ShapeV, l0: Vec3V, l: Vec3V) -> Result<
    Option<Vec3V>,
    NumError,
> {
    match s {
        ShapeV::Sphere(sp) => sphere_intersect_v(sp, l0, l),
        ShapeV::Triangle(t) => tri_intersect_v(t, l0, l),
        ShapeV::Caching(ct) => tri_intersect_v(ct.inner, l0, l),
    }
}

/// Mirror of the normal at a point of the shape.
pub open spec fn shape_normal_at_v(s: ShapeV, p: Vec3V) -> Option<Vec3V> {
    match s {
        ShapeV::Sphere(sp) => v3_sub_v(p, sp.o),
        ShapeV::Triangle(t) => tri_normal_v(t),
        ShapeV::Caching(ct) => tri_normal_v(ct.inner),
    }
}

/// Mirror of the ambient color at a point of the shape.
pub open spec fn shape_ambient_v(s: ShapeV) -> ColorV {
    match s {
        ShapeV::Sphere(sp) => sp.ambient_color,
        ShapeV::Triangle(t) => t.ambient_color,
        ShapeV::Caching(ct) => ct.inner.ambient_color,
    }
}

/// Mirror of the diffuse color at a point of the shape.
pub open spec fn shape_diffuse_v(s: ShapeV) -> ColorV {
    match s {
        ShapeV::Sphere(sp) => sp.diffuse_color,
        ShapeV::Triangle(t) => t.diffuse_color,
        ShapeV::Caching(ct) => ct.inner.diffuse_color,
    }
}

/// Mirror of the specular color at a point of the shape.
pub open spec fn shape_specular_v(s: ShapeV) -> ColorV {
    match s {
        ShapeV::Sphere(sp) => sp.specular_color,
        ShapeV::Triangle(t) => t.specular_color,
        ShapeV::Caching(ct) => ct.inner.specular_color,
    }
}

/// Mirror of the shininess at a point of the shape.
pub open spec fn shape_shininess_v(s: ShapeV) -> nat {
    match s {
        ShapeV::Sphere(sp) => sp.shininess,
        ShapeV::Triangle(t) => t.shininess,
        ShapeV::Caching(ct) => ct.inner.shininess,
    }
}

impl Shape {
    /// The color of this shape at `p` in ambient white light.
    pub fn ambient_color_at(&self, p: &Vec3) -> (c: Color)
        ensures
            c@ == shape_ambient_v(self@),
    {
        match self {
            Shape::Sphere(s) => s.ambient_color_at(p),
            Shape::Triangle(t) => t.ambient_color_at(p),
            Shape::Caching(ct) => ct.ambient_color_at(p),
        }
    }

    /// The color of the diffuse reflection of white light off this shape
    /// at `p`.
    pub fn diffuse_color_at(&self, p: &Vec3) -> (c: Color)
        ensures
            c@ == shape_diffuse_v(self@),
    {
        match self {
            Shape::Sphere(s) => s.diffuse_color_at(p),
            Shape::Triangle(t) => t.diffuse_color_at(p),
            Shape::Caching(ct) => ct.diffuse_color_at(p),
        }
    }

    /// The color of the specular reflection of white light off this shape
    /// at `p`.
    pub fn specular_color_at(&self, p: &Vec3) -> (c: Color)
        ensures
            c@ == shape_specular_v(self@),
    {
        match self {
            Shape::Sphere(s) => s.specular_color_at(p),
            Shape::Triangle(t) => t.specular_color_at(p),
            Shape::Caching(ct) => ct.specular_color_at(p),
        }
    }

    /// The shininess of this shape at `p`.
    pub fn shininess_at(&self, p: &Vec3) -> (h: u32)
        ensures
            h as nat == shape_shininess_v(self@),
    {
        match self {
            Shape::Sphere(s) => s.shininess_at(p),
            Shape::Triangle(t) => t.shininess_at(p),
            Shape::Caching(ct) => ct.shininess_at(p),
        }
    }

    /// The point at which a ray from `l0` in direction `l` first meets
    /// this shape, exactly as [`shape_intersect_v`] names it.
    pub fn intersect_ray(&self, l0: &Vec3, l: &Vec3) -> (r: Result<
        Option<Vec3>,
        NumError,
    >)
        ensures
            lift_hit(r) == shape_intersect_v(self@, l0@, l@),
    {
        proof {
            reveal(shape_intersect_v);
        }
        match self {
            Shape::Sphere(s) => s.intersect_ray(l0, l),
            Shape::Triangle(t) => t.intersect_ray(l0, l),
            Shape::Caching(ct) => ct.intersect_ray(l0, l),
        }
    }

    /// A vector normal to this shape at `p`, not necessarily unit length.
    pub fn normal_at(&self, p: &Vec3) -> (r: Option<Vec3>)
        ensures
            crate::vec3::ov3(r) == shape_normal_at_v(self@, p@),
    {
        match self {
            Shape::Sphere(s) => s.normal_at(p),
            Shape::Triangle(t) => t.normal_at(p),
            Shape::Caching(ct) => Some(ct.normal_at(p)),
        }
    }
}

} // verus!
