//! The laws of the renderer: properties that relate several operations,
//! stated over the same mirrors the executable functions are verified
//! against.

use crate::rat::{rat_lt_v, NumError, RatV};
use crate::raster::pixel_angle_v;
use crate::render::{
    cast_ray_v, closest_hit_upto_v, lights_fold_v, light_term_v, ray_dir_v,
    shade_v, shadow_bias_v, AngleV,
};
use crate::scene::{LightV, SceneV};
use crate::shape::{shape_intersect_v, tri_intersect_v, tri_normal_v, TriangleV};
use crate::vec3::{v3_add_v, v3_dist2_v, v3_dot_v, v3_scale_v, v3_sub_v, Vec3V};
use vstd::prelude::*;

verus! {

/// Strict order between positive-denominator rationals is transitive
/// across a non-strict step.
proof fn lemma_rat_lt_le_trans(a: RatV, b: RatV, c: RatV)
    requires
        a.d > 0,
        b.d > 0,
        c.d > 0,
        rat_lt_v(a, b),
        !rat_lt_v(c, b),
    ensures
        rat_lt_v(a, c),
{
    assert(a.n * c.d < c.n * a.d) by (nonlinear_arith)
        requires
            a.d > 0,
            b.d > 0,
            c.d > 0,
            a.n * b.d < b.n * a.d,
            !(c.n * b.d < b.n * c.d),
    ;
}

/// The hit distance a shape reports, if any, has a positive denominator.
/// Every value the executable code builds satisfies this; it is the
/// validity hypothesis of the ordering laws.
pub open spec fn hit_wf(s: crate::shape::ShapeV, l0: Vec3V, l: Vec3V) -> bool {
    match shape_intersect_v(s, l0, l) {
        Ok(Some(q)) => match v3_dist2_v(q, l0) {
            Some(dq) => dq.d > 0,
            None => true,
        },
        _ => true,
    }
}

/// No shape among the first `n` hits the ray strictly nearer than `d2`.
pub open spec fn no_nearer_hit(
    shapes: Seq<crate::shape::ShapeV>,
    l0: Vec3V,
    l: Vec3V,
    n: int,
    d2: RatV,
) -> bool {
    forall|j: int|
        0 <= j < n ==> match #[trigger] shape_intersect_v(shapes[j], l0, l) {
            Ok(Some(q)) => match v3_dist2_v(q, l0) {
                Some(dq) => !rat_lt_v(dq, d2),
                None => true,
            },
            _ => true,
        }
}

/// A ray whose direction is perpendicular to a triangle's derived normal
/// is parallel to its plane and never intersects it.
pub proof fn lemma_parallel_ray_misses(
    t: TriangleV,
    l0: Vec3V,
    l: Vec3V,
    n: Vec3V,
    dnl: RatV,
)
    requires
        tri_normal_v(t) == Some(n),
        v3_dot_v(n, l) == Some(dnl),
        dnl.n == 0,
    ensures
        tri_intersect_v(t, l0, l) == Ok::<Option<Vec3V>, NumError>(None),
{
    reveal(tri_intersect_v);
}

/// When the closest-hit scan of the first `n` shapes reports no hit,
/// every one of those shapes reported no hit.
pub proof fn lemma_closest_none_all_miss(
    shapes: Seq<crate::shape::ShapeV>,
    l0: Vec3V,
    l: Vec3V,
    n: int,
)
    requires
        closest_hit_upto_v(shapes, l0, l, n) == Ok::<
            Option<(int, Vec3V, RatV)>,
            NumError,
        >(None),
    ensures
        forall|j: int|
            0 <= j < n ==> #[trigger] shape_intersect_v(shapes[j], l0, l) == Ok::<
                Option<Vec3V>,
                NumError,
            >(None),
    decreases n,
{
    if n > 0 {
        lemma_closest_none_all_miss(shapes, l0, l, n - 1);
    }
}

/// When every one of the first `n` shapes misses the ray, the
/// closest-hit scan reports no hit.
pub proof fn lemma_all_miss_closest_none(
    shapes: Seq<crate::shape::ShapeV>,
    l0: Vec3V,
    l: Vec3V,
    n: int,
)
    requires
        forall|j: int|
            0 <= j < n ==> #[trigger] shape_intersect_v(shapes[j], l0, l) == Ok::<
                Option<Vec3V>,
                NumError,
            >(None),
    ensures
        closest_hit_upto_v(shapes, l0, l, n) == Ok::<
            Option<(int, Vec3V, RatV)>,
            NumError,
        >(None),
    decreases n,
{
    if n > 0 {
        lemma_all_miss_closest_none(shapes, l0, l, n - 1);
    }
}

/// The hit the closest-hit scan selects is a real hit of the selected
/// shape, and no scanned shape hits the ray strictly nearer: the
/// renderer reports the nearer of any two shapes along one ray.
pub proof fn lemma_closest_hit_is_nearest(
    shapes: Seq<crate::shape::ShapeV>,
    l0: Vec3V,
    l: Vec3V,
    n: int,
    i: int,
    p: Vec3V,
    d2: RatV,
)
    requires
        forall|j: int| 0 <= j < n ==> #[trigger] hit_wf(shapes[j], l0, l),
        closest_hit_upto_v(shapes, l0, l, n) == Ok::<
            Option<(int, Vec3V, RatV)>,
            NumError,
        >(Some((i, p, d2))),
    ensures
        0 <= i < n,
        shape_intersect_v(shapes[i], l0, l) == Ok::<Option<Vec3V>, NumError>(
            Some(p),
        ),
        v3_dist2_v(p, l0) == Some(d2),
        d2.d > 0,
        no_nearer_hit(shapes, l0, l, n, d2),
    decreases n,
{
    if n > 0 {
        let prev = closest_hit_upto_v(shapes, l0, l, n - 1);
        match prev {
            Ok(Some((bi, bp, bd2))) => {
                lemma_closest_hit_is_nearest(shapes, l0, l, n - 1, bi, bp, bd2);
            },
            Ok(None) => {
                lemma_closest_none_all_miss(shapes, l0, l, n - 1);
            },
            Err(e) => {},
        }
        assert(hit_wf(shapes[n - 1], l0, l));
        assert(d2.d > 0);
        assert forall|j: int| 0 <= j < n implies match #[trigger] shape_intersect_v(
            shapes[j],
            l0,
            l,
        ) {
            Ok(Some(qq)) => match v3_dist2_v(qq, l0) {
                Some(dj) => !rat_lt_v(dj, d2),
                None => true,
            },
            _ => true,
        } by {
            match shape_intersect_v(shapes[j], l0, l) {
                Ok(Some(qq)) => match v3_dist2_v(qq, l0) {
                    Some(dj) => {
                        assert(hit_wf(shapes[j], l0, l));
                        if j < n - 1 {
                            match prev {
                                Ok(Some((bi, bp, bd2))) => {
                                    // the previous champion is nearest among
                                    // the prefix; the final one is at most it
                                    assert(no_nearer_hit(shapes, l0, l, n - 1, bd2));
                                    if rat_lt_v(dj, d2) && !rat_lt_v(dj, bd2) {
                                        lemma_rat_lt_le_trans(dj, d2, bd2);
                                    }
                                },
                                _ => {},
                            }
                        }
                    },
                    None => {},
                },
                _ => {},
            }
        }
        assert(no_nearer_hit(shapes, l0, l, n, d2));
    }
}

/// A ray whose origin is offset perpendicular to the sphere's axis by
/// more than the radius never intersects it: when the displacement from
/// the origin to the center is perpendicular to the direction and
/// strictly longer than the radius, the early rejection answers.
pub proof fn lemma_perpendicular_offset_misses(
    s: crate::shape::SphereV,
    l0: Vec3V,
    l: Vec3V,
    d: Vec3V,
    dl: RatV,
    dn2: RatV,
    r2: RatV,
)
    requires
        v3_sub_v(s.o, l0) == Some(d),
        v3_dot_v(d, l) == Some(dl),
        dl.n == 0,
        v3_dot_v(d, d) == Some(dn2),
        crate::rat::rat_mul_v(s.r, s.r) == Some(r2),
        rat_lt_v(r2, dn2),
    ensures
        crate::shape::sphere_intersect_v(s, l0, l) == Ok::<
            Option<Vec3V>,
            NumError,
        >(None),
{
    reveal(crate::shape::sphere_intersect_v);
}

/// A triangle whose vertices are colinear has a zero-area cross product
/// for its derived normal, and wrapping it in a caching triangle then
/// reports absence — unless the arithmetic leaves the representable
/// range first. The converse, that a nonzero normal always yields a
/// caching triangle, is not stated here.
pub proof fn lemma_colinear_triangle_rejected(
    t: TriangleV,
    e1: Vec3V,
    e2: Vec3V,
    n: Vec3V,
)
    requires
        crate::vec3::v3_wf(e1),
        crate::vec3::v3_wf(e2),
        crate::vec3::v3_wf(n),
        v3_sub_v(t.b, t.a) == Some(e1),
        v3_sub_v(t.c, t.a) == Some(e2),
        crate::vec3::v3_cross_v(e1, e2) == Some(n),
        crate::vec3::v3_is_zero_v(n),
    ensures
        crate::shape::ct_new_v(t) == Ok::<
            Option<(Vec3V, crate::vec3::Mat3V)>,
            NumError,
        >(None) || crate::shape::ct_new_v(t) == Err::<
            Option<(Vec3V, crate::vec3::Mat3V)>,
            NumError,
        >(NumError::Range),
{
    match crate::vec3::v3_cross_v(e2, n) {
        None => {},
        Some(a0) => {
            crate::vec3::lemma_cross_zero_right(e2, n, a0);
            match v3_dot_v(e1, a0) {
                None => {},
                Some(det) => {
                    crate::vec3::lemma_dot_zero_right(e1, a0, det);
                },
            }
        },
    }
}

/// When the ray misses every shape, the renderer returns the scene's
/// background color exactly.
pub proof fn lemma_cast_ray_background(
    scene: SceneV,
    theta: AngleV,
    phi: AngleV,
    dir: Vec3V,
)
    requires
        ray_dir_v(scene.camera, theta, phi) == Ok::<Vec3V, NumError>(dir),
        forall|j: int|
            0 <= j < scene.shapes.len() ==> #[trigger] shape_intersect_v(
                scene.shapes[j],
                scene.camera.pos,
                dir,
            ) == Ok::<Option<Vec3V>, NumError>(None),
    ensures
        cast_ray_v(scene, theta, phi) == Ok::<
            crate::color::ColorV,
            NumError,
        >(scene.background_color),
{
    reveal(cast_ray_v);
    lemma_all_miss_closest_none(
        scene.shapes,
        scene.camera.pos,
        dir,
        scene.shapes.len() as int,
    );
}

/// When the closest-hit scan selects shape `i` at point `p`, the
/// renderer's color is exactly the shading of that shape at that point.
pub proof fn lemma_cast_ray_shades_nearest(
    scene: SceneV,
    theta: AngleV,
    phi: AngleV,
    dir: Vec3V,
    i: int,
    p: Vec3V,
    d2: RatV,
)
    requires
        ray_dir_v(scene.camera, theta, phi) == Ok::<Vec3V, NumError>(dir),
        closest_hit_upto_v(
            scene.shapes,
            scene.camera.pos,
            dir,
            scene.shapes.len() as int,
        ) == Ok::<Option<(int, Vec3V, RatV)>, NumError>(Some((i, p, d2))),
    ensures
        cast_ray_v(scene, theta, phi) == shade_v(scene, i, p),
{
    reveal(cast_ray_v);
}

/// A light fully occluded between the hit point and the light — the shadow
/// ray's first hit lies strictly nearer than the light — contributes
/// nothing: neither diffuse nor specular.
pub proof fn lemma_occluded_light_contributes_nothing(
    shapes: Seq<crate::shape::ShapeV>,
    p: Vec3V,
    n: Vec3V,
    nn: RatV,
    dc: Vec3V,
    dcn2: RatV,
    h: nat,
    light: LightV,
    dl: Vec3V,
    dleps: Vec3V,
    sorig: Vec3V,
    si: int,
    q: Vec3V,
    sd2: RatV,
    dln2: RatV,
    pq2: RatV,
)
    requires
        v3_sub_v(light.pos, p) == Some(dl),
        v3_scale_v(dl, shadow_bias_v()) == Some(dleps),
        v3_add_v(p, dleps) == Some(sorig),
        closest_hit_upto_v(shapes, sorig, dl, shapes.len() as int) == Ok::<
            Option<(int, Vec3V, RatV)>,
            NumError,
        >(Some((si, q, sd2))),
        v3_dot_v(dl, dl) == Some(dln2),
        v3_dist2_v(p, q) == Some(pq2),
        rat_lt_v(pq2, dln2),
    ensures
        light_term_v(shapes, p, n, nn, dc, dcn2, h, light) == Ok::<
            Option<(crate::color::ColorV, crate::color::ColorV)>,
            NumError,
        >(None),
{
    reveal(light_term_v);
}

/// A light whose contribution is nothing leaves both running sums of the
/// light fold unchanged.
pub proof fn lemma_fold_skips_dark_light(
    shapes: Seq<crate::shape::ShapeV>,
    lights: Seq<LightV>,
    p: Vec3V,
    n: Vec3V,
    nn: RatV,
    dc: Vec3V,
    dcn2: RatV,
    h: nat,
    i: int,
)
    requires
        0 < i <= lights.len(),
        light_term_v(shapes, p, n, nn, dc, dcn2, h, lights[i - 1]) == Ok::<
            Option<(crate::color::ColorV, crate::color::ColorV)>,
            NumError,
        >(None),
    ensures
        lights_fold_v(shapes, lights, p, n, nn, dc, dcn2, h, i)
            == lights_fold_v(shapes, lights, p, n, nn, dc, dcn2, h, i - 1),
{
}

/// The pixel-to-angle map is strictly increasing along an axis: with a
/// positive field of view, a pixel further right (or down) is assigned a
/// strictly greater angle.
pub proof fn lemma_pixel_angle_monotone(
    x1: int,
    x2: int,
    extent: int,
    fov: RatV,
    t1: RatV,
    t2: RatV,
)
    requires
        x1 < x2,
        extent > 0,
        fov.n > 0,
        fov.d > 0,
        pixel_angle_v(x1, extent, fov) == Some(t1),
        pixel_angle_v(x2, extent, fov) == Some(t2),
    ensures
        rat_lt_v(t1, t2),
{
    lemma_pixel_angle_value(x1, extent, fov, t1);
    lemma_pixel_angle_value(x2, extent, fov, t2);
    assert(t1.n * t2.d < t2.n * t1.d) by (nonlinear_arith)
        requires
            t1.n * (2 * extent * fov.d) == (2 * x1 - extent) * fov.n * t1.d,
            t2.n * (2 * extent * fov.d) == (2 * x2 - extent) * fov.n * t2.d,
            t1.d > 0,
            t2.d > 0,
            extent > 0,
            fov.n > 0,
            fov.d > 0,
            x1 < x2,
    ;
}

/// The value the pixel-to-angle map assigns: as a ratio,
/// `t == (2 x - extent) * fov / (2 extent)`.
proof fn lemma_pixel_angle_value(x: int, extent: int, fov: RatV, t: RatV)
    requires
        extent > 0,
        fov.d > 0,
        pixel_angle_v(x, extent, fov) == Some(t),
    ensures
        t.d > 0,
        t.n * (2 * extent * fov.d) == (2 * x - extent) * fov.n * t.d,
{
    let half = crate::rat::rat_div_v(
        RatV { n: extent, d: 1 },
        RatV { n: 2, d: 1 },
    ).unwrap();
    let cx = crate::rat::rat_sub_v(RatV { n: x, d: 1 }, half).unwrap();
    let num = crate::rat::rat_mul_v(cx, fov).unwrap();
    crate::rat::lemma_norm_ratio(extent * 1, (1 * 2) as int);
    assert(half.n * 2 == extent * half.d && half.d > 0) by (nonlinear_arith)
        requires
            half.n * (1 * 2) == (extent * 1) * half.d,
            half.d > 0,
    ;
    assert(1 * half.d != 0);
    crate::rat::lemma_gcd_one_left(half.d as nat);
    crate::rat::lemma_div_by_one(1);
    crate::rat::lemma_div_by_one(half.d);
    crate::rat::lemma_norm_ratio(x * half.d + (-half.n) * 1, 1 * half.d);
    assert(cx.d > 0);
    assert(cx.n * half.d == (x * half.d - half.n) * cx.d) by (nonlinear_arith)
        requires
            cx.n * (1 * half.d) == (x * half.d + (-half.n) * 1) * cx.d,
    ;
    assert(cx.d * fov.d > 0) by (nonlinear_arith)
        requires
            cx.d > 0,
            fov.d > 0,
    ;
    crate::rat::lemma_norm_ratio(cx.n * fov.n, cx.d * fov.d);
    assert(num.n * (cx.d * fov.d) == (cx.n * fov.n) * num.d);
    assert(num.d > 0);
    assert(num.d * extent > 0) by (nonlinear_arith)
        requires
            num.d > 0,
            extent > 0,
    ;
    crate::rat::lemma_norm_ratio(num.n * 1, num.d * extent);
    assert(t.n * (num.d * extent) == (num.n * 1) * t.d);
    assert(t.d > 0);
    // Chain the four ratio identities into the closed form, one product
    // at a time.
    assert(2 * cx.n == (2 * x - extent) * cx.d) by (nonlinear_arith)
        requires
            half.n * 2 == extent * half.d,
            cx.n * half.d == (x * half.d - half.n) * cx.d,
            half.d > 0,
    ;
    let k = num.d * cx.d;
    assert(k > 0) by (nonlinear_arith)
        requires
            num.d > 0,
            cx.d > 0,
            k == num.d * cx.d,
    ;
    let lhs = t.n * (2 * extent * fov.d);
    let rhs = (2 * x - extent) * fov.n * t.d;
    let m1 = num.n * t.d;
    assert(lhs * k == 2 * fov.d * cx.d * m1) by (nonlinear_arith)
        requires
            lhs == t.n * (2 * extent * fov.d),
            k == num.d * cx.d,
            m1 == num.n * t.d,
            t.n * (num.d * extent) == num.n * t.d,
    ;
    let m2 = (cx.n * fov.n) * num.d;
    assert(2 * fov.d * cx.d * m1 == 2 * t.d * m2) by (nonlinear_arith)
        requires
            m1 == num.n * t.d,
            m2 == (cx.n * fov.n) * num.d,
            num.n * (cx.d * fov.d) == (cx.n * fov.n) * num.d,
    ;
    assert(2 * t.d * m2 == rhs * k) by (nonlinear_arith)
        requires
            m2 == (cx.n * fov.n) * num.d,
            rhs == (2 * x - extent) * fov.n * t.d,
            k == num.d * cx.d,
            2 * cx.n == (2 * x - extent) * cx.d,
    ;
    lemma_cancel(lhs, rhs, k);
}

/// Multiplying by a positive factor is injective.
proof fn lemma_cancel(a: int, b: int, k: int)
    requires
        a * k == b * k,
        k > 0,
    ensures
        a == b,
{
    assert(a == b) by (nonlinear_arith)
        requires
            a * k == b * k,
            k > 0,
    ;
}

} // verus!
