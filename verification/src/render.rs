//! The shading algorithm: closest-hit selection, shadowing, and the
//! ambient, diffuse and specular contributions of every light.

use crate::color::{
    color_add_v, color_black_v, color_is_black_v, color_mul_v, color_scale_v,
    Color, ColorV,
};
use crate::rat::{
    lemma_mul_v_props, lemma_norm_unit_num, lemma_sqrt_pos, rat_abs_v,
    rat_div_v, rat_lt_v, rat_mul_v, rat_pow_v, rat_sqrt_v, rat_sub_v, NumError,
    Rat, RatV,
};
use crate::scene::{CameraV, Light, LightV, Scene, SceneV};
use crate::shape::{
    shape_ambient_v, shape_diffuse_v, shape_intersect_v, shape_normal_at_v,
    shape_shininess_v, shape_specular_v, ShapeV,
};
use crate::vec3::{
    lemma_dot_self_nonneg, v3_add_v, v3_cross_v, v3_dist2_v, v3_dot_v,
    v3_scale_v, v3_sub_v, Vec3, Vec3V,
};
use vstd::prelude::*;

verus! {

/// The specification-level value of an angle.
pub struct AngleV {
    pub cos: RatV,
    pub sin: RatV,
}

/// An angle given by its exact cosine and sine.
///
/// The library does not check the unit-circle relation; the caller that
/// turns a radian measure into this pair owns that approximation.
#[derive(Clone, Copy, Debug, PartialEq, Eq, Structural)]
pub struct Angle {
    /// The cosine of the angle.
    pub cos: Rat,
    /// The sine of the angle.
    pub sin: Rat,
}

impl View for Angle {
    type V = AngleV;

    open spec fn view(&self) -> AngleV {
        AngleV { cos: self.cos@, sin: self.sin@ }
    }
}

/// The view of a color-or-error result.
pub open spec fn lift_color(r: Result<Color, NumError>) -> Result<
    ColorV,
    NumError,
> {
    match r {
        Ok(c) => Ok(c@),
        Err(e) => Err(e),
    }
}

/// The view of a closest-hit result.
pub open spec fn lift_closest(r: Result<Option<(usize, Vec3)>, NumError>) -> Result<
    Option<(int, Vec3V)>,
    NumError,
> {
    match r {
        Ok(Some((i, p))) => Ok(Some((i as int, p@))),
        Ok(None) => Ok(None),
        Err(e) => Err(e),
    }
}

/// Mirror of rotating `v` around the axis `u` by the angle with cosine
/// `c` and sine `s`, by the axis-angle formula with the axis normalized
/// on the way:
/// `c*v + (s/|u|)*(u x v) + ((1-c)/|u|^2)*(u.v)*u`.
#[verifier::opaque]
pub open spec fn rotate_v(v: Vec3V, u: Vec3V, c: RatV, s: RatV) -> Result<
    Vec3V,
    NumError,
> {
    match v3_dot_v(u, u) {
        None => Err(NumError::Range),
        Some(u2) => if u2.n == 0 {
            Err(NumError::DivisionByZero)
        } else {
            match rat_sqrt_v(u2) {
                None => Err(NumError::Inexact),
                Some(su) => match v3_scale_v(v, c) {
                    None => Err(NumError::Range),
                    Some(t1) => match v3_cross_v(u, v) {
                        None => Err(NumError::Range),
                        Some(uxv) => match rat_div_v(s, su) {
                            None => Err(NumError::Range),
                            Some(c2) => match v3_scale_v(uxv, c2) {
                                None => Err(NumError::Range),
                                Some(t2) => rotate_tail_v(v, u, c, u2, t1, t2),
                            },
                        },
                    },
                },
            }
        },
    }
}

/// Mirror of the last term of the rotation and the final sum.
#[verifier::opaque]
pub open spec fn rotate_tail_v(
    v: Vec3V,
    u: Vec3V,
    c: RatV,
    u2: RatV,
    t1: Vec3V,
    t2: Vec3V,
) -> Result<Vec3V, NumError> {
    match v3_dot_v(u, v) {
        None => Err(NumError::Range),
        Some(uv) => match rat_sub_v(RatV { n: 1, d: 1 }, c) {
            None => Err(NumError::Range),
            Some(omc) => match rat_div_v(omc, u2) {
                None => Err(NumError::Range),
                Some(c3a) => match rat_mul_v(c3a, uv) {
                    None => Err(NumError::Range),
                    Some(c3) => match v3_scale_v(u, c3) {
                        None => Err(NumError::Range),
                        Some(t3) => match v3_add_v(t1, t2) {
                            None => Err(NumError::Range),
                            Some(t12) => match v3_add_v(t12, t3) {
                                None => Err(NumError::Range),
                                Some(out) => Ok(out),
                            },
                        },
                    },
                },
            },
        },
    }
}

/// Mirror of deriving the ray direction from the camera and the two
/// angles: rotate forward around the leftward axis by `phi`, then around
/// the upward axis by `theta`.
#[verifier::opaque]
pub open spec fn ray_dir_v(cam: CameraV, theta: AngleV, phi: AngleV) -> Result<
    Vec3V,
    NumError,
> {
    match v3_cross_v(cam.forward, cam.up) {
        None => Err(NumError::Range),
        Some(left) => match rotate_v(cam.forward, left, phi.cos, phi.sin) {
            Err(e) => Err(e),
            Ok(f1) => rotate_v(f1, cam.up, theta.cos, theta.sin),
        },
    }
}

/// Mirror of selecting, among the first `n` shapes, the hit nearest to
/// `l0`: the index, the point and the squared distance. A later shape
/// replaces the champion only when strictly nearer, so the first of
/// equally near shapes wins.
pub open spec fn closest_hit_upto_v(
    shapes: Seq<ShapeV>,
    l0: Vec3V,
    l: Vec3V,
    n: int,
) -> Result<Option<(int, Vec3V, RatV)>, NumError>
    decreases n,
{
    if n <= 0 {
        Ok(None)
    } else {
        match closest_hit_upto_v(shapes, l0, l, n - 1) {
            Err(e) => Err(e),
            Ok(acc) => match shape_intersect_v(shapes[n - 1], l0, l) {
                Err(e) => Err(e),
                Ok(None) => Ok(acc),
                Ok(Some(p)) => match v3_dist2_v(p, l0) {
                    None => Err(NumError::Range),
                    Some(d2) => match acc {
                        None => Ok(Some((n - 1, p, d2))),
                        Some((bi, bp, bd2)) => if rat_lt_v(d2, bd2) {
                            Ok(Some((n - 1, p, d2)))
                        } else {
                            Ok(Some((bi, bp, bd2)))
                        },
                    },
                },
            },
        }
    }
}

/// The closest-hit result without its distance.
pub open spec fn closest_drop_dist(r: Result<Option<(int, Vec3V, RatV)>, NumError>) -> Result<
    Option<(int, Vec3V)>,
    NumError,
> {
    match r {
        Ok(Some((i, p, d2))) => Ok(Some((i, p))),
        Ok(None) => Ok(None),
        Err(e) => Err(e),
    }
}

/// Once the closest-hit scan fails, scanning further shapes fails the
/// same way.
proof fn lemma_closest_err_mono(
    shapes: Seq<ShapeV>,
    l0: Vec3V,
    l: Vec3V,
    k: int,
    n: int,
    e: NumError,
)
    requires
        k <= n,
        closest_hit_upto_v(shapes, l0, l, k) == Err::<
            Option<(int, Vec3V, RatV)>,
            NumError,
        >(e),
    ensures
        closest_hit_upto_v(shapes, l0, l, n) == Err::<
            Option<(int, Vec3V, RatV)>,
            NumError,
        >(e),
    decreases n,
{
    if n > k {
        lemma_closest_err_mono(shapes, l0, l, k, n - 1, e);
    }
}

/// The shadow-ray origin offset, `10^-12`, which nudges the origin
/// toward the light to avoid the surface shadowing itself.
pub open spec fn shadow_bias_v() -> RatV {
    RatV { n: 1, d: 1000000000000 }
}

/// Mirror of one light's contribution at the hit point `p` with surface
/// normal `n`: `Ok(None)` when a shape blocks the ray from `p` to the
/// light strictly before the light, else the diffuse and specular colors.
/// The diffuse factor is the absolute cosine between `n` and the light
/// direction — back faces receive light, a deliberate quirk — and the
/// specular factor is the absolute cosine between the reflection and the
/// camera direction raised to the shininess.
#[verifier::opaque]
pub open spec fn light_term_v(
    shapes: Seq<ShapeV>,
    p: Vec3V,
    n: Vec3V,
    nn: RatV,
    dc: Vec3V,
    dcn2: RatV,
    h: nat,
    light: LightV,
) -> Result<Option<(ColorV, ColorV)>, NumError> {
    match v3_sub_v(light.pos, p) {
        None => Err(NumError::Range),
        Some(dl) => match v3_scale_v(dl, shadow_bias_v()) {
            None => Err(NumError::Range),
            Some(dleps) => match v3_add_v(p, dleps) {
                None => Err(NumError::Range),
                Some(sorig) => match closest_hit_upto_v(
                    shapes,
                    sorig,
                    dl,
                    shapes.len() as int,
                ) {
                    Err(e) => Err(e),
                    Ok(shadow) => match v3_dot_v(dl, dl) {
                        None => Err(NumError::Range),
                        Some(dln2) => match shadow {
                            Some((si, q, sd2)) => match v3_dist2_v(p, q) {
                                None => Err(NumError::Range),
                                Some(pq2) => if rat_lt_v(pq2, dln2) {
                                    Ok(None)
                                } else {
                                    light_lit_v(p, n, nn, dc, dcn2, h, light, dl, dln2)
                                },
                            },
                            None => light_lit_v(p, n, nn, dc, dcn2, h, light, dl, dln2),
                        },
                    },
                },
            },
        },
    }
}

/// Mirror of an unoccluded light's diffuse and specular contribution.
#[verifier::opaque]
pub open spec fn light_lit_v(
    p: Vec3V,
    n: Vec3V,
    nn: RatV,
    dc: Vec3V,
    dcn2: RatV,
    h: nat,
    light: LightV,
    dl: Vec3V,
    dln2: RatV,
) -> Result<Option<(ColorV, ColorV)>, NumError> {
    match v3_dot_v(dl, n) {
        None => Err(NumError::Range),
        Some(dd) => match rat_mul_v(nn, dln2) {
            None => Err(NumError::Range),
            Some(prod) => match rat_sqrt_v(prod) {
                None => Err(NumError::Inexact),
                Some(s) => if s.n == 0 {
                    Err(NumError::DivisionByZero)
                } else {
                    match rat_div_v(rat_abs_v(dd), s) {
                        None => Err(NumError::Range),
                        Some(f) => match color_scale_v(light.diffuse_color, f) {
                            None => Err(NumError::Range),
                            Some(diffuse) => light_specular_v(
                                n, dc, dcn2, h, light, dl, dd, s, diffuse,
                            ),
                        },
                    }
                },
            },
        },
    }
}

/// Mirror of the specular half of one light's contribution: reflect the
/// light direction across the normal and attenuate by the absolute
/// cosine to the camera, raised to the shininess.
#[verifier::opaque]
pub open spec fn light_specular_v(
    n: Vec3V,
    dc: Vec3V,
    dcn2: RatV,
    h: nat,
    light: LightV,
    dl: Vec3V,
    dd: RatV,
    s: RatV,
    diffuse: ColorV,
) -> Result<Option<(ColorV, ColorV)>, NumError> {
    match rat_mul_v(RatV { n: 2, d: 1 }, rat_abs_v(dd)) {
        None => Err(NumError::Range),
        Some(twod) => match rat_div_v(twod, s) {
            None => Err(NumError::Range),
            Some(coef) => match v3_scale_v(n, coef) {
                None => Err(NumError::Range),
                Some(ns) => match v3_sub_v(ns, dl) {
                    None => Err(NumError::Range),
                    Some(rv) => match v3_dot_v(rv, dc) {
                        None => Err(NumError::Range),
                        Some(ee) => match v3_dot_v(rv, rv) {
                            None => Err(NumError::Range),
                            Some(rr) => match rat_mul_v(rr, dcn2) {
                                None => Err(NumError::Range),
                                Some(prod2) => match rat_sqrt_v(prod2) {
                                    None => Err(NumError::Inexact),
                                    Some(s2) => if s2.n == 0 {
                                        Err(NumError::DivisionByZero)
                                    } else {
                                        match rat_div_v(rat_abs_v(ee), s2) {
                                            None => Err(NumError::Range),
                                            Some(f2) => match rat_pow_v(f2, h) {
                                                None => Err(NumError::Range),
                                                Some(fp) => match color_scale_v(
                                                    light.specular_color,
                                                    fp,
                                                ) {
                                                    None => Err(NumError::Range),
                                                    Some(spec) => Ok(
                                                        Some((diffuse, spec)),
                                                    ),
                                                },
                                            },
                                        }
                                    },
                                },
                            },
                        },
                    },
                },
            },
        },
    }
}

/// Mirror of summing the contributions of the first `i` lights. An
/// occluded light adds nothing, and a specular contribution is added
/// only when the same light's diffuse contribution is not black — a
/// gate, not a physical rule, and kept deliberately.
pub open spec fn lights_fold_v(
    shapes: Seq<ShapeV>,
    lights: Seq<LightV>,
    p: Vec3V,
    n: Vec3V,
    nn: RatV,
    dc: Vec3V,
    dcn2: RatV,
    h: nat,
    i: int,
) -> Result<(ColorV, ColorV), NumError>
    decreases i,
{
    if i <= 0 {
        Ok((color_black_v(), color_black_v()))
    } else {
        match lights_fold_v(shapes, lights, p, n, nn, dc, dcn2, h, i - 1) {
            Err(e) => Err(e),
            Ok((sd, ss)) => match light_term_v(
                shapes, p, n, nn, dc, dcn2, h, lights[i - 1],
            ) {
                Err(e) => Err(e),
                Ok(None) => Ok((sd, ss)),
                Ok(Some((di, si))) => match color_add_v(sd, di) {
                    None => Err(NumError::Range),
                    Some(sd2) => if !color_is_black_v(di) {
                        match color_add_v(ss, si) {
                            None => Err(NumError::Range),
                            Some(ss2) => Ok((sd2, ss2)),
                        }
                    } else {
                        Ok((sd2, ss))
                    },
                },
            },
        }
    }
}

/// Once the light fold fails, folding more lights fails the same way.
proof fn lemma_fold_err_mono(
    shapes: Seq<ShapeV>,
    lights: Seq<LightV>,
    p: Vec3V,
    n: Vec3V,
    nn: RatV,
    dc: Vec3V,
    dcn2: RatV,
    h: nat,
    k: int,
    i: int,
    e: NumError,
)
    requires
        k <= i,
        lights_fold_v(shapes, lights, p, n, nn, dc, dcn2, h, k) == Err::<
            (ColorV, ColorV),
            NumError,
        >(e),
    ensures
        lights_fold_v(shapes, lights, p, n, nn, dc, dcn2, h, i) == Err::<
            (ColorV, ColorV),
            NumError,
        >(e),
    decreases i,
{
    if i > k {
        lemma_fold_err_mono(shapes, lights, p, n, nn, dc, dcn2, h, k, i - 1, e);
    }
}

/// Mirror of shading the hit of shape `i` at point `p`: ambient times the
/// shape's ambient color, plus the diffuse and specular sums over all
/// lights scaled by the shape's own diffuse and specular colors.
#[verifier::opaque]
pub open spec fn shade_v(scene: SceneV, i: int, p: Vec3V) -> Result<
    ColorV,
    NumError,
> {
    match shape_normal_at_v(scene.shapes[i], p) {
        None => Err(NumError::Range),
        Some(n) => match v3_dot_v(n, n) {
            None => Err(NumError::Range),
            Some(nn) => match v3_sub_v(scene.camera.pos, p) {
                None => Err(NumError::Range),
                Some(dc) => match v3_dot_v(dc, dc) {
                    None => Err(NumError::Range),
                    Some(dcn2) => match color_mul_v(
                        scene.ambient_color,
                        shape_ambient_v(scene.shapes[i]),
                    ) {
                        None => Err(NumError::Range),
                        Some(amb) => match lights_fold_v(
                            scene.shapes,
                            scene.lights,
                            p,
                            n,
                            nn,
                            dc,
                            dcn2,
                            shape_shininess_v(scene.shapes[i]),
                            scene.lights.len() as int,
                        ) {
                            Err(e) => Err(e),
                            Ok((sd, ss)) => match color_mul_v(
                                shape_diffuse_v(scene.shapes[i]),
                                sd,
                            ) {
                                None => Err(NumError::Range),
                                Some(td) => match color_mul_v(
                                    shape_specular_v(scene.shapes[i]),
                                    ss,
                                ) {
                                    None => Err(NumError::Range),
                                    Some(ts) => match color_add_v(amb, td) {
                                        None => Err(NumError::Range),
                                        Some(c1) => match color_add_v(c1, ts) {
                                            None => Err(NumError::Range),
                                            Some(c2) => Ok(c2),
                                        },
                                    },
                                },
                            },
                        },
                    },
                },
            },
        },
    }
}

/// Mirror of casting one ray: derive the direction, find the nearest
/// hit, and either shade it or return the scene's background color
/// unchanged when nothing is hit.
#[verifier::opaque]
pub open spec fn cast_ray_v(scene: SceneV, theta: AngleV, phi: AngleV) -> Result<
    ColorV,
    NumError,
> {
    match ray_dir_v(scene.camera, theta, phi) {
        Err(e) => Err(e),
        Ok(dir) => match closest_hit_upto_v(
            scene.shapes,
            scene.camera.pos,
            dir,
            scene.shapes.len() as int,
        ) {
            Err(e) => Err(e),
            Ok(None) => Ok(scene.background_color),
            Ok(Some((i, p, d2))) => shade_v(scene, i, p),
        },
    }
}

/// Implemented by algorithms which can render a scene.
pub trait Renderer: Sized {
    /// The color this renderer computes for the given angles, or the
    /// reason no exact color exists.
    spec fn spec_cast(&self, theta: AngleV, phi: AngleV) -> Result<
        ColorV,
        NumError,
    >;

    /// Returns the color visible in the direction given by `theta` and
    /// `phi`, exactly as `spec_cast` names it.
    fn cast_ray(&self, theta: &Angle, phi: &Angle) -> (r: Result<
        Color,
        NumError,
    >)
        ensures
            lift_color(r) == self.spec_cast(theta@, phi@),
    ;
}

/// A renderer that intersects every shape against every ray with no
/// acceleration structure.
pub struct NaiveRenderer<'scene> {
    /// The scene referenced by this renderer.
    pub scene: &'scene Scene,
}

impl<'scene> NaiveRenderer<'scene> {
    /// Creates a renderer which references `scene`.
    pub fn new(scene: &'scene Scene) -> (r: Self)
        ensures
            r.scene == scene,
    {
        NaiveRenderer { scene }
    }

    /// The first shape intersected by the ray from `l0` in direction
    /// `l` — the one whose hit lies nearest to `l0` — as an index into
    /// the scene's shapes, with the hit point.
    pub fn intersect_ray(&self, l0: &Vec3, l: &Vec3) -> (r: Result<
        Option<(usize, Vec3)>,
        NumError,
    >)
        ensures
            lift_closest(r) == closest_drop_dist(
                closest_hit_upto_v(
                    self.scene@.shapes,
                    l0@,
                    l@,
                    self.scene@.shapes.len() as int,
                ),
            ),
    {
        closest_hit(self.scene, l0, l)
    }
}

/// The closest-hit scan over every shape of the scene.
#[verifier::rlimit(100)]
#[verifier::loop_isolation(false)]
#[verifier::spinoff_prover]
fn closest_hit(scene: &Scene, l0: &Vec3, l: &Vec3) -> (r: Result<
    Option<(usize, Vec3)>,
    NumError,
>)
    ensures
        lift_closest(r) == closest_drop_dist(
            closest_hit_upto_v(
                scene@.shapes,
                l0@,
                l@,
                scene@.shapes.len() as int,
            ),
        ),
        match r {
            Ok(Some((i, p))) => i < scene.shapes@.len(),
            _ => true,
        },
{
    let ghost sv = scene@.shapes;
    let nshapes = scene.shapes.len();
    let mut best: Option<(usize, Vec3, Rat)> = None;
    let mut i: usize = 0;
    while i < nshapes
        invariant
            i <= nshapes,
            nshapes == scene.shapes.len(),
            sv == scene@.shapes,
            sv.len() == nshapes,
            closest_hit_upto_v(sv, l0@, l@, i as int) == Ok::<
                Option<(int, Vec3V, RatV)>,
                NumError,
            >(
                match best {
                    Some((bi, bp, bd2)) => Some((bi as int, bp@, bd2@)),
                    None => None,
                },
            ),
            match best {
                Some((bi, bp, bd2)) => bi < i,
                None => true,
            },
        decreases nshapes - i,
    {
        proof {
            assert(sv[i as int] == scene.shapes@[i as int]@);
        }
        match scene.shapes[i].intersect_ray(l0, l) {
            Err(e) => {
                proof {
                    lemma_closest_err_mono(
                        sv,
                        l0@,
                        l@,
                        i as int + 1,
                        sv.len() as int,
                        e,
                    );
                }
                return Err(e);
            },
            Ok(None) => {},
            Ok(Some(p)) => {
                match p.dist2(l0) {
                    None => {
                        proof {
                            lemma_closest_err_mono(
                                sv,
                                l0@,
                                l@,
                                i as int + 1,
                                sv.len() as int,
                                NumError::Range,
                            );
                        }
                        return Err(NumError::Range);
                    },
                    Some(d2) => {
                        let replace = match best {
                            None => true,
                            Some((_, _, bd2)) => d2.lt(&bd2),
                        };
                        if replace {
                            best = Some((i, p, d2));
                        }
                    },
                }
            },
        }
        i = i + 1;
    }
    match best {
        Some((bi, bp, _)) => Ok(Some((bi, bp))),
        None => Ok(None),
    }
}

impl<'scene> Renderer for NaiveRenderer<'scene> {
    open spec fn spec_cast(&self, theta: AngleV, phi: AngleV) -> Result<
        ColorV,
        NumError,
    > {
        cast_ray_v(self.scene@, theta, phi)
    }

    /// Returns the color visible in the scene referenced by this
    /// renderer, from its camera, in the direction given by `theta` and
    /// `phi`, exactly as [`cast_ray_v`] names it.
    #[verifier::spinoff_prover]
    fn cast_ray(&self, theta: &Angle, phi: &Angle) -> (r: Result<
        Color,
        NumError,
    >) {
        proof {
            reveal(cast_ray_v);
            reveal(ray_dir_v);
        }
        let scene = self.scene;
        let left = match scene.camera.forward.cross(&scene.camera.up) {
            Some(v) => v,
            None => {
                return Err(NumError::Range);
            },
        };
        let f1 = match rotate(&scene.camera.forward, &left, &phi.cos, &phi.sin) {
            Ok(v) => v,
            Err(e) => {
                return Err(e);
            },
        };
        let dir = match rotate(&f1, &scene.camera.up, &theta.cos, &theta.sin) {
            Ok(v) => v,
            Err(e) => {
                return Err(e);
            },
        };
        let hit = match closest_hit(scene, &scene.camera.pos, &dir) {
            Ok(v) => v,
            Err(e) => {
                return Err(e);
            },
        };
        match hit {
            None => Ok(scene.background_color),
            Some((i, p)) => shade(scene, i, &p),
        }
    }
}

/// Rotates `v` around the axis `u` by the angle whose cosine is `c` and
/// sine is `s`, exactly as [`rotate_v`] names it.
#[verifier::spinoff_prover]
fn rotate(v: &Vec3, u: &Vec3, c: &Rat, s: &Rat) -> (r: Result<Vec3, NumError>)
    ensures
        match r {
            Ok(out) => rotate_v(v@, u@, c@, s@) == Ok::<Vec3V, NumError>(out@),
            Err(e) => rotate_v(v@, u@, c@, s@) == Err::<Vec3V, NumError>(e),
        },
{
    proof {
        reveal(rotate_v);
        reveal(rotate_tail_v);
    }
    let u2 = match u.dot(u) {
        Some(w) => w,
        None => {
            return Err(NumError::Range);
        },
    };
    if u2.is_zero() {
        return Err(NumError::DivisionByZero);
    }
    proof {
        use_type_invariant(&u.x);
        use_type_invariant(&u.y);
        use_type_invariant(&u.z);
        use_type_invariant(&u2);
        lemma_dot_self_nonneg(u@, u2@);
    }
    let su = match u2.sqrt_exact() {
        Some(w) => w,
        None => {
            return Err(NumError::Inexact);
        },
    };
    proof {
        lemma_sqrt_pos(u2@, su@);
    }
    let t1 = match v.scale(c) {
        Some(w) => w,
        None => {
            return Err(NumError::Range);
        },
    };
    let uxv = match u.cross(v) {
        Some(w) => w,
        None => {
            return Err(NumError::Range);
        },
    };
    let c2 = match s.div(&su) {
        Some(w) => w,
        None => {
            return Err(NumError::Range);
        },
    };
    let t2 = match uxv.scale(&c2) {
        Some(w) => w,
        None => {
            return Err(NumError::Range);
        },
    };
    let uv = match u.dot(v) {
        Some(w) => w,
        None => {
            return Err(NumError::Range);
        },
    };
    let omc = match Rat::from_int(1).sub(c) {
        Some(w) => w,
        None => {
            return Err(NumError::Range);
        },
    };
    let c3a = match omc.div(&u2) {
        Some(w) => w,
        None => {
            return Err(NumError::Range);
        },
    };
    let c3 = match c3a.mul(&uv) {
        Some(w) => w,
        None => {
            return Err(NumError::Range);
        },
    };
    let t3 = match u.scale(&c3) {
        Some(w) => w,
        None => {
            return Err(NumError::Range);
        },
    };
    let t12 = match t1.add(&t2) {
        Some(w) => w,
        None => {
            return Err(NumError::Range);
        },
    };
    let out = match t12.add(&t3) {
        Some(w) => w,
        None => {
            return Err(NumError::Range);
        },
    };
    Ok(out)
}

/// Shades the hit of shape `i` at `p`, exactly as [`shade_v`] names it.
#[verifier::rlimit(100)]
#[verifier::loop_isolation(false)]
#[verifier::spinoff_prover]
fn shade(scene: &Scene, i: usize, p: &Vec3) -> (r: Result<Color, NumError>)
    requires
        i < scene.shapes@.len(),
    ensures
        lift_color(r) == shade_v(scene@, i as int, p@),
{
    proof {
        reveal(shade_v);
        assert(scene@.shapes[i as int] == scene.shapes@[i as int]@);
    }
    let shape = &scene.shapes[i];
    let n = match shape.normal_at(p) {
        Some(v) => v,
        None => {
            return Err(NumError::Range);
        },
    };
    let nn = match n.dot(&n) {
        Some(v) => v,
        None => {
            return Err(NumError::Range);
        },
    };
    let dc = match scene.camera.pos.sub(p) {
        Some(v) => v,
        None => {
            return Err(NumError::Range);
        },
    };
    let dcn2 = match dc.dot(&dc) {
        Some(v) => v,
        None => {
            return Err(NumError::Range);
        },
    };
    let amb = match scene.ambient_color.mul(&shape.ambient_color_at(p)) {
        Some(v) => v,
        None => {
            return Err(NumError::Range);
        },
    };
    let h = shape.shininess_at(p);
    proof {
        use_type_invariant(&n.x);
        use_type_invariant(&n.y);
        use_type_invariant(&n.z);
        use_type_invariant(&nn);
        lemma_dot_self_nonneg(n@, nn@);
        use_type_invariant(&dc.x);
        use_type_invariant(&dc.y);
        use_type_invariant(&dc.z);
        use_type_invariant(&dcn2);
        lemma_dot_self_nonneg(dc@, dcn2@);
    }
    let ghost lv = scene@.lights;
    let nlights = scene.lights.len();
    let mut sum_d = Color::black();
    let mut sum_s = Color::black();
    let mut j: usize = 0;
    proof {
        assert(sum_d@ == color_black_v());
        assert(sum_s@ == color_black_v());
    }
    while j < nlights
        invariant
            j <= nlights,
            nlights == scene.lights.len(),
            lv == scene@.lights,
            lv.len() == nlights,
            lights_fold_v(
                scene@.shapes,
                lv,
                p@,
                n@,
                nn@,
                dc@,
                dcn2@,
                h as nat,
                j as int,
            ) == Ok::<(ColorV, ColorV), NumError>((sum_d@, sum_s@)),
        decreases nlights - j,
    {
        proof {
            assert(lv[j as int] == scene.lights@[j as int]@);
        }
        let light = &scene.lights[j];
        match light_term(scene, p, &n, &nn, &dc, &dcn2, h, light) {
            Err(e) => {
                proof {
                    lemma_fold_err_mono(
                        scene@.shapes,
                        lv,
                        p@,
                        n@,
                        nn@,
                        dc@,
                        dcn2@,
                        h as nat,
                        j as int + 1,
                        lv.len() as int,
                        e,
                    );
                }
                return Err(e);
            },
            Ok(None) => {},
            Ok(Some((di, si))) => {
                let new_d = match sum_d.add(&di) {
                    Some(v) => v,
                    None => {
                        proof {
                            lemma_fold_err_mono(
                                scene@.shapes,
                                lv,
                                p@,
                                n@,
                                nn@,
                                dc@,
                                dcn2@,
                                h as nat,
                                j as int + 1,
                                lv.len() as int,
                                NumError::Range,
                            );
                        }
                        return Err(NumError::Range);
                    },
                };
                sum_d = new_d;
                if !di.is_black() {
                    let new_s = match sum_s.add(&si) {
                        Some(v) => v,
                        None => {
                            proof {
                                lemma_fold_err_mono(
                                    scene@.shapes,
                                    lv,
                                    p@,
                                    n@,
                                    nn@,
                                    dc@,
                                    dcn2@,
                                    h as nat,
                                    j as int + 1,
                                    lv.len() as int,
                                    NumError::Range,
                                );
                            }
                            return Err(NumError::Range);
                        },
                    };
                    sum_s = new_s;
                }
            },
        }
        j = j + 1;
    }
    let td = match shape.diffuse_color_at(p).mul(&sum_d) {
        Some(v) => v,
        None => {
            return Err(NumError::Range);
        },
    };
    let ts = match shape.specular_color_at(p).mul(&sum_s) {
        Some(v) => v,
        None => {
            return Err(NumError::Range);
        },
    };
    let c1 = match amb.add(&td) {
        Some(v) => v,
        None => {
            return Err(NumError::Range);
        },
    };
    let c2 = match c1.add(&ts) {
        Some(v) => v,
        None => {
            return Err(NumError::Range);
        },
    };
    Ok(c2)
}

/// One light's contribution at `p`, exactly as [`light_term_v`] names it.
#[verifier::spinoff_prover]
fn light_term(
    scene: &Scene,
    p: &Vec3,
    n: &Vec3,
    nn: &Rat,
    dc: &Vec3,
    dcn2: &Rat,
    h: u32,
    light: &Light,
) -> (r: Result<Option<(Color, Color)>, NumError>)
    requires
        nn@.n >= 0,
        nn@.d > 0,
        dcn2@.n >= 0,
        dcn2@.d > 0,
    ensures
        ({
            let spec_r = light_term_v(
                scene@.shapes,
                p@,
                n@,
                nn@,
                dc@,
                dcn2@,
                h as nat,
                light@,
            );
            match r {
                Ok(Some((d, s))) => spec_r == Ok::<
                    Option<(ColorV, ColorV)>,
                    NumError,
                >(Some((d@, s@))),
                Ok(None) => spec_r == Ok::<Option<(ColorV, ColorV)>, NumError>(
                    None,
                ),
                Err(e) => spec_r == Err::<Option<(ColorV, ColorV)>, NumError>(e),
            }
        }),
{
    proof {
        reveal(light_term_v);
    }
    let dl = match light.pos.sub(p) {
        Some(v) => v,
        None => {
            return Err(NumError::Range);
        },
    };
    let bias = Rat::new(1, 1000000000000);
    proof {
        lemma_norm_unit_num(1000000000000);
        assert(bias@ == shadow_bias_v());
    }
    let dleps = match dl.scale(&bias) {
        Some(v) => v,
        None => {
            return Err(NumError::Range);
        },
    };
    let sorig = match p.add(&dleps) {
        Some(v) => v,
        None => {
            return Err(NumError::Range);
        },
    };
    let shadow = match closest_hit(scene, &sorig, &dl) {
        Ok(v) => v,
        Err(e) => {
            return Err(e);
        },
    };
    let dln2 = match dl.dot(&dl) {
        Some(v) => v,
        None => {
            return Err(NumError::Range);
        },
    };
    proof {
        use_type_invariant(&dl.x);
        use_type_invariant(&dl.y);
        use_type_invariant(&dl.z);
        use_type_invariant(&dln2);
        lemma_dot_self_nonneg(dl@, dln2@);
    }
    if let Some((_, q)) = shadow {
        let pq2 = match p.dist2(&q) {
            Some(v) => v,
            None => {
                return Err(NumError::Range);
            },
        };
        if pq2.lt(&dln2) {
            return Ok(None);
        }
    }
    light_lit(p, n, nn, dc, dcn2, h, light, &dl, &dln2)
}

/// An unoccluded light's contribution, exactly as [`light_lit_v`] names
/// it.
#[verifier::spinoff_prover]
fn light_lit(
    p: &Vec3,
    n: &Vec3,
    nn: &Rat,
    dc: &Vec3,
    dcn2: &Rat,
    h: u32,
    light: &Light,
    dl: &Vec3,
    dln2: &Rat,
) -> (r: Result<Option<(Color, Color)>, NumError>)
    requires
        nn@.n >= 0,
        nn@.d > 0,
        dcn2@.n >= 0,
        dcn2@.d > 0,
        dln2@.n >= 0,
        dln2@.d > 0,
    ensures
        ({
            let spec_r = light_lit_v(
                p@,
                n@,
                nn@,
                dc@,
                dcn2@,
                h as nat,
                light@,
                dl@,
                dln2@,
            );
            match r {
                Ok(Some((d, s))) => spec_r == Ok::<
                    Option<(ColorV, ColorV)>,
                    NumError,
                >(Some((d@, s@))),
                Ok(None) => spec_r == Ok::<Option<(ColorV, ColorV)>, NumError>(
                    None,
                ),
                Err(e) => spec_r == Err::<Option<(ColorV, ColorV)>, NumError>(e),
            }
        }),
{
    proof {
        reveal(light_lit_v);
        reveal(light_specular_v);
    }
    let dd = match dl.dot(n) {
        Some(v) => v,
        None => {
            return Err(NumError::Range);
        },
    };
    let prod = match nn.mul(dln2) {
        Some(v) => v,
        None => {
            return Err(NumError::Range);
        },
    };
    proof {
        lemma_mul_v_props(nn@, dln2@, prod@);
        use_type_invariant(&prod);
        assert(prod@.n >= 0);
    }
    let s = match prod.sqrt_exact() {
        Some(v) => v,
        None => {
            return Err(NumError::Inexact);
        },
    };
    if s.is_zero() {
        return Err(NumError::DivisionByZero);
    }
    let f = match dd.abs().div(&s) {
        Some(v) => v,
        None => {
            return Err(NumError::Range);
        },
    };
    let diffuse = match light.diffuse_color.scale(&f) {
        Some(v) => v,
        None => {
            return Err(NumError::Range);
        },
    };
    let twod = match Rat::from_int(2).mul(&dd.abs()) {
        Some(v) => v,
        None => {
            return Err(NumError::Range);
        },
    };
    let coef = match twod.div(&s) {
        Some(v) => v,
        None => {
            return Err(NumError::Range);
        },
    };
    let ns = match n.scale(&coef) {
        Some(v) => v,
        None => {
            return Err(NumError::Range);
        },
    };
    let rv = match ns.sub(dl) {
        Some(v) => v,
        None => {
            return Err(NumError::Range);
        },
    };
    let ee = match rv.dot(dc) {
        Some(v) => v,
        None => {
            return Err(NumError::Range);
        },
    };
    let rr = match rv.dot(&rv) {
        Some(v) => v,
        None => {
            return Err(NumError::Range);
        },
    };
    let prod2 = match rr.mul(dcn2) {
        Some(v) => v,
        None => {
            return Err(NumError::Range);
        },
    };
    proof {
        use_type_invariant(&rv.x);
        use_type_invariant(&rv.y);
        use_type_invariant(&rv.z);
        use_type_invariant(&rr);
        lemma_dot_self_nonneg(rv@, rr@);
        lemma_mul_v_props(rr@, dcn2@, prod2@);
        use_type_invariant(&prod2);
        assert(prod2@.n >= 0);
    }
    let s2 = match prod2.sqrt_exact() {
        Some(v) => v,
        None => {
            return Err(NumError::Inexact);
        },
    };
    if s2.is_zero() {
        return Err(NumError::DivisionByZero);
    }
    let f2 = match ee.abs().div(&s2) {
        Some(v) => v,
        None => {
            return Err(NumError::Range);
        },
    };
    let fp = match f2.pow_n(h) {
        Some(v) => v,
        None => {
            return Err(NumError::Range);
        },
    };
    let spec = match light.specular_color.scale(&fp) {
        Some(v) => v,
        None => {
            return Err(NumError::Range);
        },
    };
    Ok(Some((diffuse, spec)))
}

} // verus!
