//! Mapping a rectangular pixel buffer to per-pixel ray angles, and driving
//! a renderer over every pixel.

use crate::color::{color_bytes_v, Rgba};
use crate::rat::{rat_div_v, rat_mul_v, rat_sub_v, NumError, Rat, RatV};
use crate::render::{Angle, AngleV, Renderer};
use vstd::prelude::*;

verus! {

/// Mirror of the angle assigned to coordinate `x` of an axis with
/// `extent` pixels and field of view `fov` (in radians):
/// `(x - extent / 2) * fov / extent`.
pub open spec fn pixel_angle_v(x: int, extent: int, fov: RatV) -> Option<RatV> {
    match rat_div_v(RatV { n: extent, d: 1 }, RatV { n: 2, d: 1 }) {
        None => None,
        Some(half) => match rat_sub_v(RatV { n: x, d: 1 }, half) {
            None => None,
            Some(cx) => match rat_mul_v(cx, fov) {
                None => None,
                Some(num) => rat_div_v(num, RatV { n: extent, d: 1 }),
            },
        },
    }
}

/// The angle assigned to coordinate `x` of an axis with `extent` pixels
/// and field of view `fov`, exactly as [`pixel_angle_v`] names it.
pub fn pixel_angle(x: u32, extent: u32, fov: &Rat) -> (r: Option<Rat>)
    requires
        extent > 0,
    ensures
        crate::rat::opt_v(r) == pixel_angle_v(x as int, extent as int, fov@),
{
    let ex = Rat::from_int(extent as i64);
    let half = match ex.div(&Rat::from_int(2)) {
        Some(v) => v,
        None => {
            return None;
        },
    };
    let cx = match Rat::from_int(x as i64).sub(&half) {
        Some(v) => v,
        None => {
            return None;
        },
    };
    let num = match cx.mul(fov) {
        Some(v) => v,
        None => {
            return None;
        },
    };
    num.div(&ex)
}

/// The row-major pixel coordinates of linear index `i` in a buffer
/// `width` pixels wide: `(i mod width, i div width)`.
pub fn pixel_coords(i: u32, width: u32) -> (r: (u32, u32))
    requires
        width > 0,
    ensures
        r.0 == i as int % width as int,
        r.1 == i as int / width as int,
{
    (i % width, i / width)
}

/// Mirror of the pair of angles assigned to linear pixel index `i`.
pub open spec fn pixel_angles_v(
    i: int,
    width: int,
    height: int,
    fov_horiz: RatV,
    fov_vert: RatV,
) -> Option<(RatV, RatV)> {
    match pixel_angle_v(i % width, width, fov_horiz) {
        None => None,
        Some(theta) => match pixel_angle_v(i / width, height, fov_vert) {
            None => None,
            Some(phi) => Some((theta, phi)),
        },
    }
}

/// The ray angles of every pixel of a `width` by `height` buffer in
/// row-major order: for index `i`, the horizontal angle of column
/// `i mod width` and the vertical angle of row `i div width`. `None`
/// exactly when some pixel's angle leaves the representable range.
pub fn angle_grid(width: u32, height: u32, fov_horiz: &Rat, fov_vert: &Rat) -> (r:
    Option<Vec<(Rat, Rat)>>)
    requires
        width > 0,
        height > 0,
        width * height <= u32::MAX,
        width * height <= usize::MAX,
    ensures
        match r {
            Some(g) => {
                &&& g@.len() == width * height
                &&& forall|i: int|
                    0 <= i < g@.len() ==> pixel_angles_v(
                        i,
                        width as int,
                        height as int,
                        fov_horiz@,
                        fov_vert@,
                    ) == Some((#[trigger] g@[i].0@, g@[i].1@))
            },
            None => exists|i: int|
                0 <= i < width * height && #[trigger] pixel_angles_v(
                    i,
                    width as int,
                    height as int,
                    fov_horiz@,
                    fov_vert@,
                ) == None::<(RatV, RatV)>,
        },
{
    let total: usize = (width as usize) * (height as usize);
    let mut g: Vec<(Rat, Rat)> = Vec::new();
    let mut i: usize = 0;
    while i < total
        invariant
            i <= total,
            total == width * height,
            total <= u32::MAX,
            width > 0,
            height > 0,
            g@.len() == i,
            forall|j: int|
                0 <= j < i ==> pixel_angles_v(
                    j,
                    width as int,
                    height as int,
                    fov_horiz@,
                    fov_vert@,
                ) == Some((#[trigger] g@[j].0@, g@[j].1@)),
        decreases total - i,
    {
        let (x, y) = pixel_coords(i as u32, width);
        let theta = match pixel_angle(x, width, fov_horiz) {
            Some(v) => v,
            None => {
                proof {
                    assert(pixel_angles_v(
                        i as int,
                        width as int,
                        height as int,
                        fov_horiz@,
                        fov_vert@,
                    ) == None::<(RatV, RatV)>);
                }
                return None;
            },
        };
        let phi = match pixel_angle(y, height, fov_vert) {
            Some(v) => v,
            None => {
                proof {
                    assert(pixel_angles_v(
                        i as int,
                        width as int,
                        height as int,
                        fov_horiz@,
                        fov_vert@,
                    ) == None::<(RatV, RatV)>);
                }
                return None;
            },
        };
        g.push((theta, phi));
        i = i + 1;
    }
    Some(g)
}

/// Mirror of producing one pixel: cast the ray and convert the color to
/// its four bytes; a color whose conversion cannot be computed counts as
/// a range failure.
pub open spec fn pixel_result_v<R: Renderer>(
    renderer: &R,
    theta: AngleV,
    phi: AngleV,
) -> Result<Rgba, NumError> {
    match renderer.spec_cast(theta, phi) {
        Err(e) => Err(e),
        Ok(c) => match color_bytes_v(c) {
            Some(b) => Ok(b),
            None => Err(NumError::Range),
        },
    }
}

/// Renders one pixel per entry of `angles` into `buf`, in order: each
/// cell receives exactly the bytes of the color the renderer names for
/// that cell's angles. On the first failing pixel the buffer is left
/// unchanged and the error is returned.
pub fn rasterize_into<R: Renderer>(
    renderer: &R,
    buf: &mut Vec<Rgba>,
    angles: &Vec<(Angle, Angle)>,
) -> (res: Result<(), NumError>)
    requires
        old(buf)@.len() == angles@.len(),
    ensures
        match res {
            Ok(()) => {
                &&& final(buf)@.len() == angles@.len()
                &&& forall|i: int|
                    0 <= i < angles@.len() ==> pixel_result_v(
                        renderer,
                        angles@[i].0@,
                        angles@[i].1@,
                    ) == Ok::<Rgba, NumError>(#[trigger] final(buf)@[i])
            },
            Err(e) => {
                &&& *final(buf) == *old(buf)
                &&& exists|i: int|
                    0 <= i < angles@.len() && #[trigger] pixel_result_v(
                        renderer,
                        angles@[i].0@,
                        angles@[i].1@,
                    ) == Err::<Rgba, NumError>(e)
            },
        },
{
    let n = angles.len();
    let mut out: Vec<Rgba> = Vec::new();
    let mut i: usize = 0;
    while i < n
        invariant
            i <= n,
            n == angles@.len(),
            out@.len() == i,
            forall|j: int|
                0 <= j < i ==> pixel_result_v(
                    renderer,
                    angles@[j].0@,
                    angles@[j].1@,
                ) == Ok::<Rgba, NumError>(#[trigger] out@[j]),
        decreases n - i,
    {
        let (theta, phi) = &angles[i];
        let c = match renderer.cast_ray(theta, phi) {
            Ok(v) => v,
            Err(e) => {
                proof {
                    assert(pixel_result_v(
                        renderer,
                        angles@[i as int].0@,
                        angles@[i as int].1@,
                    ) == Err::<Rgba, NumError>(e));
                }
                return Err(e);
            },
        };
        let b = match c.to_bytes() {
            Some(v) => v,
            None => {
                proof {
                    assert(pixel_result_v(
                        renderer,
                        angles@[i as int].0@,
                        angles@[i as int].1@,
                    ) == Err::<Rgba, NumError>(NumError::Range));
                }
                return Err(NumError::Range);
            },
        };
        out.push(b);
        i = i + 1;
    }
    *buf = out;
    Ok(())
}

} // verus!
