//! The read-only data model a renderer consumes for one frame.

use crate::color::{Color, ColorV};
use crate::shape::{Shape, ShapeV};
use crate::vec3::{ov3, v3_cross_v, Vec3, Vec3V};
use vstd::prelude::*;

verus! {

/// The specification-level value of a camera.
pub struct CameraV {
    pub pos: Vec3V,
    pub forward: Vec3V,
    pub up: Vec3V,
}

/// A directional camera.
///
/// `forward` and `up` need not be unit length, but they must not be
/// parallel, or the derived leftward direction is the zero vector and ray
/// rotation is degenerate.
#[derive(Clone, Copy, Debug, PartialEq, Eq, Structural)]
pub struct Camera {
    /// The position of this camera.
    pub pos: Vec3,
    /// The direction of "forward" for this camera.
    pub forward: Vec3,
    /// The direction of "upward" for this camera.
    pub up: Vec3,
}

impl View for Camera {
    type V = CameraV;

    open spec fn view(&self) -> CameraV {
        CameraV { pos: self.pos@, forward: self.forward@, up: self.up@ }
    }
}

impl Camera {
    /// The direction of "leftward" for this camera: the cross product of
    /// forward and up.
    pub fn left(&self) -> (r: Option<Vec3>)
        ensures
            ov3(r) == v3_cross_v(self@.forward, self@.up),
    {
        self.forward.cross(&self.up)
    }
}

/// The specification-level value of a light source.
pub struct LightV {
    pub pos: Vec3V,
    pub diffuse_color: ColorV,
    pub specular_color: ColorV,
}

/// A uniform, chromatic point light source.
#[derive(Clone, Copy, Debug, PartialEq, Eq, Structural)]
pub struct Light {
    /// The position of this light source.
    pub pos: Vec3,
    /// The color of light shed by this source toward diffuse reflection.
    pub diffuse_color: Color,
    /// The color of light shed by this source toward specular reflection.
    pub specular_color: Color,
}

impl View for Light {
    type V = LightV;

    open spec fn view(&self) -> LightV {
        LightV {
            pos: self.pos@,
            diffuse_color: self.diffuse_color@,
            specular_color: self.specular_color@,
        }
    }
}

/// The specification-level value of a scene.
pub struct SceneV {
    pub background_color: ColorV,
    pub ambient_color: ColorV,
    pub camera: CameraV,
    pub lights: Seq<LightV>,
    pub shapes: Seq<ShapeV>,
}

/// The primary container object which is rendered. The scene owns its
/// camera, lights and shapes, and is read-only for the duration of a
/// render pass.
pub struct Scene {
    /// The color of the background in this scene.
    pub background_color: Color,
    /// The color of the ambient light in this scene.
    pub ambient_color: Color,
    /// The camera in this scene.
    pub camera: Camera,
    /// The light sources in this scene.
    pub lights: Vec<Light>,
    /// The shapes in this scene.
    pub shapes: Vec<Shape>,
}

impl View for Scene {
    type V = SceneV;

    open spec fn view(&self) -> SceneV {
        SceneV {
            background_color: self.background_color@,
            ambient_color: self.ambient_color@,
            camera: self.camera@,
            lights: self.lights@.map_values(|l: Light| l@),
            shapes: self.shapes@.map_values(|s: Shape| s@),
        }
    }
}

} // verus!
