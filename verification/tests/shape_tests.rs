use raytracing::color::Color;
use raytracing::rat::{NumError, Rat};
use raytracing::shape::{CachingTriangle, Sphere, Triangle};
use raytracing::vec3::Vec3;

fn v(x: i64, y: i64, z: i64) -> Vec3 {
    Vec3::new(Rat::from_int(x), Rat::from_int(y), Rat::from_int(z))
}

fn vr(x: (i64, i64), y: (i64, i64), z: (i64, i64)) -> Vec3 {
    Vec3::new(Rat::new(x.0, x.1), Rat::new(y.0, y.1), Rat::new(z.0, z.1))
}

fn sphere(o: Vec3, rn: i64, rd: i64) -> Sphere {
    Sphere {
        o,
        r: Rat::new(rn, rd),
        ambient_color: Color::black(),
        diffuse_color: Color::black(),
        specular_color: Color::black(),
        shininess: 2,
    }
}

fn triangle(a: Vec3, b: Vec3, c: Vec3) -> Triangle {
    Triangle {
        a,
        b,
        c,
        ambient_color: Color::black(),
        diffuse_color: Color::black(),
        specular_color: Color::black(),
        shininess: 2,
    }
}

#[test]
fn sphere_axial_ray_hits_at_radius() {
    // sphere centered at the origin with radius r: a ray from (0,0,5)
    // toward -z hits at (0,0,r), with normal (0,0,r), not unit length
    let s = sphere(v(0, 0, 0), 1, 4);
    let hit = s.intersect_ray(&v(0, 0, 5), &v(0, 0, -1)).expect("exact");
    assert_eq!(hit, Some(vr((0, 1), (0, 1), (1, 4))));
    let n = s.normal_at(&hit.unwrap()).expect("exact");
    assert_eq!(n, vr((0, 1), (0, 1), (1, 4)));
}

#[test]
fn sphere_ray_offset_beyond_radius_misses() {
    // offset 2 perpendicular to the ray axis, radius 1: never intersects
    let s = sphere(v(0, 0, 0), 1, 1);
    let hit = s.intersect_ray(&v(0, 2, 5), &v(0, 0, -1)).expect("exact");
    assert_eq!(hit, None);
}

#[test]
fn sphere_perpendicular_offset_misses() {
    // the displacement to the center is perpendicular to the direction
    // and longer than the radius: the early rejection answers
    let s = sphere(v(0, 0, 0), 1, 1);
    let hit = s.intersect_ray(&v(0, 2, 0), &v(0, 0, -1)).expect("exact");
    assert_eq!(hit, None);
}

#[test]
fn sphere_ray_pointing_away_misses() {
    let s = sphere(v(0, 0, 0), 1, 1);
    let hit = s.intersect_ray(&v(0, 0, 5), &v(0, 0, 1)).expect("exact");
    assert_eq!(hit, None);
}

#[test]
fn sphere_zero_direction_is_degenerate() {
    // from outside, the early rejection already answers; from inside
    // the sphere, a zero direction reaches the projection and divides
    // by a zero norm
    let s = sphere(v(0, 0, 0), 1, 1);
    assert_eq!(
        s.intersect_ray(&v(0, 0, 5), &v(0, 0, 0)),
        Ok(None)
    );
    assert_eq!(
        s.intersect_ray(&v(0, 0, 0), &v(0, 0, 0)),
        Err(NumError::DivisionByZero)
    );
}

#[test]
fn sphere_irrational_hit_is_inexact() {
    // the offset ray meets the unit sphere where sqrt(3)/2 appears
    let s = sphere(v(0, 0, 0), 1, 1);
    assert_eq!(
        s.intersect_ray(&vr((0, 1), (1, 2), (5, 1)), &v(0, 0, -1)),
        Err(NumError::Inexact)
    );
}

#[test]
fn sphere_out_of_range_arithmetic_is_reported() {
    let s = sphere(v(i64::MAX, i64::MAX, i64::MAX), 1, 1);
    assert_eq!(
        s.intersect_ray(&v(0, 0, 0), &v(1, 1, 1)),
        Err(NumError::Range)
    );
}

#[test]
fn triangle_barycentric_containment() {
    // unit right triangle in the z = 0 plane: the ray straight down
    // through (1/4, 1/4, 1) hits the plane at (1/4, 1/4, 0)
    let t = triangle(v(0, 0, 0), v(1, 0, 0), v(0, 1, 0));
    let hit = t
        .intersect_ray(&vr((1, 4), (1, 4), (1, 1)), &v(0, 0, -1))
        .expect("exact");
    assert_eq!(hit, Some(vr((1, 4), (1, 4), (0, 1))));
}

#[test]
fn triangle_outside_the_diagonal_misses() {
    // v + w = 6/5 > 1: outside the triangle
    let t = triangle(v(0, 0, 0), v(1, 0, 0), v(0, 1, 0));
    let hit = t
        .intersect_ray(&vr((3, 5), (3, 5), (1, 1)), &v(0, 0, -1))
        .expect("exact");
    assert_eq!(hit, None);
}

#[test]
fn triangle_boundary_is_inclusive() {
    // v + w = 1 exactly still hits
    let t = triangle(v(0, 0, 0), v(1, 0, 0), v(0, 1, 0));
    let hit = t
        .intersect_ray(&vr((1, 2), (1, 2), (1, 1)), &v(0, 0, -1))
        .expect("exact");
    assert_eq!(hit, Some(vr((1, 2), (1, 2), (0, 1))));
}

#[test]
fn triangle_parallel_ray_misses() {
    // the direction is perpendicular to the normal (0,0,2): parallel
    let t = triangle(v(0, 0, 0), v(2, 0, 0), v(0, 2, 0));
    let hit = t.intersect_ray(&v(5, 5, 3), &v(1, 0, 0)).expect("exact");
    assert_eq!(hit, None);
}

#[test]
fn triangle_behind_origin_misses() {
    let t = triangle(v(0, 0, 0), v(1, 0, 0), v(0, 1, 0));
    let hit = t
        .intersect_ray(&vr((1, 4), (1, 4), (1, 1)), &v(0, 0, 1))
        .expect("exact");
    assert_eq!(hit, None);
}

#[test]
fn triangle_normal_is_the_cross_product() {
    let t = triangle(v(0, 0, 0), v(2, 0, 0), v(0, 2, 0));
    assert_eq!(t.normal(), Some(v(0, 0, 4)));
    assert_eq!(t.normal_at(&v(0, 0, 0)), Some(v(0, 0, 4)));
}

#[test]
fn caching_triangle_matches_plain_triangle() {
    let t = triangle(v(0, 0, 0), v(1, 0, 0), v(0, 1, 0));
    let ct = CachingTriangle::new(t).expect("exact").expect("not degenerate");
    let rays = [
        (vr((1, 4), (1, 4), (1, 1)), v(0, 0, -1)),
        (vr((3, 5), (3, 5), (1, 1)), v(0, 0, -1)),
        (v(5, 5, 3), v(1, 0, 0)),
        (vr((1, 4), (1, 4), (1, 1)), v(0, 0, 1)),
        (v(2, -1, 4), vr((-1, 2), (1, 3), (-1, 1))),
    ];
    for (l0, l) in rays {
        assert_eq!(ct.intersect_ray(&l0, &l), t.intersect_ray(&l0, &l));
    }
    assert_eq!(ct.normal_at(&v(0, 0, 0)), t.normal().unwrap());
    assert_eq!(ct.into_inner(), t);
}

#[test]
fn caching_triangle_rejects_colinear_vertices() {
    // the three vertices lie on one line: zero area, singular matrix
    let t = triangle(v(0, 0, 0), v(1, 1, 1), v(2, 2, 2));
    assert_eq!(CachingTriangle::new(t), Ok(None));
}
