use raytracing::color::{Color, Rgba};
use raytracing::raster::{angle_grid, pixel_angle, pixel_coords, rasterize_into};
use raytracing::rat::Rat;
use raytracing::render::{Angle, NaiveRenderer, Renderer};
use raytracing::scene::{Camera, Light, Scene};
use raytracing::shape::{CachingTriangle, Shape, Sphere, Triangle};
use raytracing::vec3::Vec3;

fn v(x: i64, y: i64, z: i64) -> Vec3 {
    Vec3::new(Rat::from_int(x), Rat::from_int(y), Rat::from_int(z))
}

fn color(rn: i64, rd: i64, gn: i64, gd: i64, bn: i64, bd: i64) -> Color {
    Color::new(Rat::new(rn, rd), Rat::new(gn, gd), Rat::new(bn, bd))
}

fn white() -> Color {
    color(1, 1, 1, 1, 1, 1)
}

fn zero_angle() -> Angle {
    Angle { cos: Rat::from_int(1), sin: Rat::from_int(0) }
}

fn camera_on_axis() -> Camera {
    Camera { pos: v(0, 0, 4), forward: v(0, 0, -1), up: v(0, 1, 0) }
}

fn scene_with(shapes: Vec<Shape>, lights: Vec<Light>) -> Scene {
    Scene {
        background_color: color(1, 2, 1, 4, 0, 1),
        ambient_color: white(),
        camera: camera_on_axis(),
        lights,
        shapes,
    }
}

fn matte_sphere(o: Vec3, rn: i64, rd: i64, ambient: Color) -> Sphere {
    Sphere {
        o,
        r: Rat::new(rn, rd),
        ambient_color: ambient,
        diffuse_color: Color::black(),
        specular_color: Color::black(),
        shininess: 2,
    }
}

#[test]
fn empty_scene_returns_exact_background() {
    let scene = scene_with(vec![], vec![]);
    let renderer = NaiveRenderer::new(&scene);
    let c = renderer.cast_ray(&zero_angle(), &zero_angle()).expect("exact");
    assert_eq!(c, scene.background_color);
}

#[test]
fn missing_every_shape_returns_exact_background() {
    // a sphere far off axis: the ray misses it
    let scene = scene_with(
        vec![Shape::Sphere(matte_sphere(v(50, 50, 0), 1, 1, white()))],
        vec![],
    );
    let renderer = NaiveRenderer::new(&scene);
    let c = renderer.cast_ray(&zero_angle(), &zero_angle()).expect("exact");
    assert_eq!(c, scene.background_color);
}

#[test]
fn nearer_of_two_shapes_wins() {
    // both spheres sit on the camera axis; the renderer must report the
    // nearer one's color
    let near = matte_sphere(v(0, 0, 2), 1, 4, color(1, 1, 0, 1, 0, 1));
    let far = matte_sphere(v(0, 0, -2), 1, 4, color(0, 1, 0, 1, 1, 1));
    let scene = scene_with(
        vec![Shape::Sphere(far), Shape::Sphere(near)],
        vec![],
    );
    let renderer = NaiveRenderer::new(&scene);
    let c = renderer.cast_ray(&zero_angle(), &zero_angle()).expect("exact");
    assert_eq!(c, color(1, 1, 0, 1, 0, 1));
}

fn lit_sphere() -> Sphere {
    Sphere {
        o: v(0, 0, 0),
        r: Rat::from_int(1),
        ambient_color: color(1, 10, 0, 1, 0, 1),
        diffuse_color: color(0, 1, 1, 2, 0, 1),
        specular_color: color(0, 1, 0, 1, 1, 4),
        shininess: 2,
    }
}

#[test]
fn full_shading_of_an_axial_light() {
    // hit point (0,0,1), normal (0,0,1), light straight behind the
    // camera: the diffuse and specular factors are exactly one, so the
    // result is ambient + diffuse + specular of the sphere
    let light = Light {
        pos: v(0, 0, 6),
        diffuse_color: white(),
        specular_color: white(),
    };
    let scene = scene_with(vec![Shape::Sphere(lit_sphere())], vec![light]);
    let renderer = NaiveRenderer::new(&scene);
    let c = renderer.cast_ray(&zero_angle(), &zero_angle()).expect("exact");
    assert_eq!(c, color(1, 10, 1, 2, 1, 4));
}

#[test]
fn occluded_light_contributes_nothing() {
    // a wide triangle in the plane y = 1 stands between the hit point
    // (0,0,1) and the light at (0,3,5); the primary ray down the z axis
    // is parallel to that plane and cannot hit it, but the shadow ray
    // does, strictly before the light, so only ambient light remains
    let light = Light {
        pos: v(0, 3, 5),
        diffuse_color: white(),
        specular_color: white(),
    };
    let occluder = Triangle {
        a: v(-5, 1, -5),
        b: v(5, 1, -5),
        c: v(0, 1, 5),
        ambient_color: Color::black(),
        diffuse_color: Color::black(),
        specular_color: Color::black(),
        shininess: 2,
    };
    let shaded = scene_with(
        vec![Shape::Sphere(lit_sphere()), Shape::Triangle(occluder)],
        vec![light],
    );
    let renderer = NaiveRenderer::new(&shaded);
    let c = renderer.cast_ray(&zero_angle(), &zero_angle()).expect("exact");
    // ambient only: exactly what the same scene without the light gives
    let dark = scene_with(
        vec![Shape::Sphere(lit_sphere()), Shape::Triangle(occluder)],
        vec![],
    );
    let dark_renderer = NaiveRenderer::new(&dark);
    let d = dark_renderer
        .cast_ray(&zero_angle(), &zero_angle())
        .expect("exact");
    assert_eq!(c, d);
    assert_eq!(c, color(1, 10, 0, 1, 0, 1));
}

#[test]
fn caching_triangle_renders_like_plain_triangle() {
    let t = Triangle {
        a: v(-2, -2, 0),
        b: v(2, -2, 0),
        c: v(0, 3, 0),
        ambient_color: color(1, 1, 0, 1, 1, 1),
        diffuse_color: Color::black(),
        specular_color: Color::black(),
        shininess: 2,
    };
    let ct = CachingTriangle::new(t).expect("exact").expect("not degenerate");
    let plain = scene_with(vec![Shape::Triangle(t)], vec![]);
    let cached = scene_with(vec![Shape::Caching(ct)], vec![]);
    let a = NaiveRenderer::new(&plain)
        .cast_ray(&zero_angle(), &zero_angle())
        .expect("exact");
    let b = NaiveRenderer::new(&cached)
        .cast_ray(&zero_angle(), &zero_angle())
        .expect("exact");
    assert_eq!(a, b);
    assert_eq!(a, color(1, 1, 0, 1, 1, 1));
}

#[test]
fn rotated_ray_misses_a_small_on_axis_sphere() {
    // an exact rotation: cosine 3/5, sine 4/5 around the upward axis
    // swings the ray well away from the small sphere dead ahead
    let scene = scene_with(
        vec![Shape::Sphere(matte_sphere(v(0, 0, 2), 1, 8, white()))],
        vec![],
    );
    let renderer = NaiveRenderer::new(&scene);
    let theta = Angle { cos: Rat::new(3, 5), sin: Rat::new(4, 5) };
    let c = renderer.cast_ray(&theta, &zero_angle()).expect("exact");
    assert_eq!(c, scene.background_color);
}

#[test]
fn pixel_mapping_is_row_major_by_width() {
    assert_eq!(pixel_coords(0, 2), (0, 0));
    assert_eq!(pixel_coords(1, 2), (1, 0));
    assert_eq!(pixel_coords(2, 2), (0, 1));
    assert_eq!(pixel_coords(3, 2), (1, 1));
    assert_eq!(pixel_coords(7, 3), (1, 2));
}

#[test]
fn pixel_angles_grow_with_the_pixel_index() {
    // a 2 by 2 buffer with a field of view close to a right angle on
    // both axes: the angle of pixel (0,0) is strictly less than the
    // angle of pixel (1,1) on both axes
    let fov = Rat::new(157, 100);
    let t0 = pixel_angle(0, 2, &fov).expect("in range");
    let t1 = pixel_angle(1, 2, &fov).expect("in range");
    assert!(t0.lt(&t1));
    assert_eq!(t0, Rat::new(-157, 200));
    assert_eq!(t1, Rat::from_int(0));
}

#[test]
fn angle_grid_is_row_major() {
    let fov = Rat::new(157, 100);
    let g = angle_grid(2, 2, &fov, &fov).expect("in range");
    assert_eq!(g.len(), 4);
    // same column, same horizontal angle; same row, same vertical angle
    assert_eq!(g[0].0, g[2].0);
    assert_eq!(g[0].1, g[1].1);
    assert!(g[0].0.lt(&g[3].0));
    assert!(g[0].1.lt(&g[3].1));
}

#[test]
fn camera_left_is_the_cross_of_forward_and_up() {
    let cam = camera_on_axis();
    // (0,0,-1) x (0,1,0) = (1,0,0)
    assert_eq!(cam.left(), Some(v(1, 0, 0)));
}

#[test]
fn rasterize_failure_reports_the_error_and_keeps_the_buffer() {
    // the sphere is offset by half its radius, so the hit point needs an
    // irrational square root and the exact core refuses to round
    let scene = scene_with(
        vec![Shape::Sphere(matte_sphere(
            Vec3::new(Rat::from_int(0), Rat::new(1, 2), Rat::from_int(0)),
            1,
            1,
            white(),
        ))],
        vec![],
    );
    let renderer = NaiveRenderer::new(&scene);
    let angles = vec![(zero_angle(), zero_angle())];
    let untouched = Rgba { r: 9, g: 9, b: 9, a: 9 };
    let mut buf = vec![untouched];
    let res = rasterize_into(&renderer, &mut buf, &angles);
    assert_eq!(res, Err(raytracing::rat::NumError::Inexact));
    assert_eq!(buf, vec![untouched]);
}

#[test]
fn rasterize_writes_every_pixel() {
    let scene = scene_with(vec![], vec![]);
    let renderer = NaiveRenderer::new(&scene);
    let angles = vec![
        (zero_angle(), zero_angle()),
        (zero_angle(), zero_angle()),
        (zero_angle(), zero_angle()),
        (zero_angle(), zero_angle()),
    ];
    let mut buf = vec![Rgba { r: 7, g: 7, b: 7, a: 7 }; 4];
    rasterize_into(&renderer, &mut buf, &angles).expect("exact");
    // background (1/2, 1/4, 0) scales to the bytes (128, 64, 0, 255)
    for px in buf {
        assert_eq!(px, Rgba { r: 128, g: 64, b: 0, a: 255 });
    }
}
