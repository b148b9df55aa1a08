use crate::math::{Color, Point3};
use vstd::prelude::*;

verus! {

/// A light that shines from one point in every direction.
pub struct PointLight {
    pub position: Point3,
    /// The colour and strength of the light; not held under one.
    pub intensity: Color,
}

/// The position of a light, told apart from other points where a light is
/// built.
pub struct PointLightPos(pub Point3);

impl PointLight {
    pub fn new(position: PointLightPos, intensity: Color) -> (light: PointLight)
        ensures
            light == (PointLight { position: position.0, intensity }),
    {
        PointLight { position: position.0, intensity }
    }
}

} // verus!
