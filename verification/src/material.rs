//! Colours, materials and lights, their numbers held as keys.

use vstd::prelude::*;
use crate::number::{is_fraction, is_nan, less, same, less_than, equals, within_unit_interval, not_a_number, ONE, ZERO};

verus! {

/// A point or a direction in space.
#[derive(Clone, Copy, Debug, PartialEq, Eq, Structural)]
pub struct Vector {
    pub x: u64,
    pub y: u64,
    pub z: u64,
}

impl Vector {
    pub fn new(x: u64, y: u64, z: u64) -> (v: Vector)
        ensures
            v == (Vector { x, y, z }),
    {
        Vector { x, y, z }
    }

    /// Whether the vector has no part along `x` and none along `y`.
    pub open spec fn is_along_z(self) -> bool {
        same(self.x, ZERO) && same(self.y, ZERO)
    }

    /// Decides whether the vector has no part along `x` and none along
    /// `y`. Turning such a direction about the `z` axis gives no second
    /// direction, so the disc of a light that is seen along it is spanned
    /// from the `x` axis instead.
    pub fn points_along_z(&self) -> (b: bool)
        ensures
            b == self.is_along_z(),
    {
        equals(self.x, ZERO) && equals(self.y, ZERO)
    }
}

/// A colour: its red, green and blue parts.
#[derive(Clone, Copy, Debug, PartialEq, Eq, Structural)]
pub struct Color {
    pub r: u64,
    pub g: u64,
    pub b: u64,
}

/// A number brought into the range from zero to one: what is below zero
/// or no number becomes zero, what is above one becomes one.
pub open spec fn clamp(key: u64) -> u64 {
    if is_nan(key) || !less(ZERO, key) {
        ZERO
    } else if less(ONE, key) {
        ONE
    } else {
        key
    }
}

fn clamp_channel(key: u64) -> (r: u64)
    ensures
        r == clamp(key),
{
    if not_a_number(key) || !less_than(ZERO, key) {
        ZERO
    } else if less_than(ONE, key) {
        ONE
    } else {
        key
    }
}

impl Color {
    pub fn new(r: u64, g: u64, b: u64) -> (c: Color)
        ensures
            c == (Color { r, g, b }),
    {
        Color { r, g, b }
    }

    /// Whether the colour is black: all three parts are zero.
    pub open spec fn is_black(self) -> bool {
        same(self.r, ZERO) && same(self.g, ZERO) && same(self.b, ZERO)
    }

    /// Decides whether the colour is black.
    pub fn black(&self) -> (b: bool)
        ensures
            b == self.is_black(),
    {
        equals(self.r, ZERO) && equals(self.g, ZERO) && equals(self.b, ZERO)
    }

    /// The colour with each part brought into the range from zero to one.
    pub fn clamped(self) -> (c: Color)
        ensures
            c == (Color { r: clamp(self.r), g: clamp(self.g), b: clamp(self.b) }),
    {
        Color { r: clamp_channel(self.r), g: clamp_channel(self.g), b: clamp_channel(self.b) }
    }
}

/// Clamping leaves a number between zero and one, and changes none that is
/// there already but to write zero with a clear sign.
pub proof fn clamp_is_a_fraction(key: u64)
    ensures
        is_fraction(clamp(key)),
        is_fraction(key) ==> same(clamp(key), key),
        clamp(clamp(key)) == clamp(key),
{
}

/// Why a material or a light was rejected.
#[derive(Clone, Copy, Debug, PartialEq, Eq, Structural)]
pub enum Rejected {
    /// The transparency does not lie between zero and one.
    Transparency,
    /// The shadow intensity does not lie between zero and one.
    ShadowIntensity,
}

/// How a surface answers light.
#[derive(Clone, Copy, Debug, PartialEq, Eq, Structural)]
pub struct Material {
    pub diffuse_color: Color,
    pub specular_color: Color,
    pub reflection_color: Color,
    pub phong_specularity: u64,
    /// The part of the light that passes through: between zero and one.
    pub transparency: u64,
}

impl Material {
    /// Whether the transparency lies between zero and one.
    pub open spec fn wf(&self) -> bool {
        is_fraction(self.transparency)
    }

    /// A material of the given colours. It is rejected when its
    /// transparency does not lie between zero and one.
    pub fn new(
        diffuse_color: Color,
        specular_color: Color,
        reflection_color: Color,
        phong_specularity: u64,
        transparency: u64,
    ) -> (r: Result<Material, Rejected>)
        ensures
            r is Ok <==> is_fraction(transparency),
            r is Ok ==> r->Ok_0.wf(),
            r is Ok ==> r->Ok_0 == (Material {
                diffuse_color,
                specular_color,
                reflection_color,
                phong_specularity,
                transparency,
            }),
            r is Err ==> r->Err_0 == Rejected::Transparency,
    {
        if !within_unit_interval(transparency) {
            return Err(Rejected::Transparency);
        }
        Ok(
            Material {
                diffuse_color,
                specular_color,
                reflection_color,
                phong_specularity,
                transparency,
            },
        )
    }

    /// Whether some light passes through: the transparency is above zero.
    pub fn is_transparent(&self) -> (b: bool)
        ensures
            b == less(ZERO, self.transparency),
    {
        less_than(ZERO, self.transparency)
    }

    /// Whether the surface mirrors: its reflection colour is not black.
    pub fn is_reflective(&self) -> (b: bool)
        ensures
            b == !self.reflection_color.is_black(),
    {
        !self.reflection_color.black()
    }

    /// Whether the surface has highlights: its specular colour is not black.
    pub fn is_specular(&self) -> (b: bool)
        ensures
            b == !self.specular_color.is_black(),
    {
        !self.specular_color.black()
    }

    /// Whether no light passes through: the transparency is zero.
    pub fn is_opaque(&self) -> (b: bool)
        ensures
            b == same(self.transparency, ZERO),
    {
        equals(self.transparency, ZERO)
    }
}

/// A material lets light through or is opaque, never both and never
/// neither.
pub proof fn opaque_or_transparent(material: Material)
    requires
        material.wf(),
    ensures
        same(material.transparency, ZERO) != less(ZERO, material.transparency),
{
}

/// A light in the shape of a disc; with radius zero, a point.
#[derive(Clone, Copy, Debug, PartialEq, Eq, Structural)]
pub struct Light {
    pub position: Vector,
    pub color: Color,
    pub specular_intensity: u64,
    /// How dark the light's shadows are: between zero, which is no shadow
    /// at all, and one.
    pub shadow_intensity: u64,
    pub radius: u64,
}

impl Light {
    /// Whether the shadow intensity lies between zero and one.
    pub open spec fn wf(&self) -> bool {
        is_fraction(self.shadow_intensity)
    }

    /// A light. It is rejected when its shadow intensity does not lie
    /// between zero and one.
    pub fn new(
        position: Vector,
        color: Color,
        specular_intensity: u64,
        shadow_intensity: u64,
        radius: u64,
    ) -> (r: Result<Light, Rejected>)
        ensures
            r is Ok <==> is_fraction(shadow_intensity),
            r is Ok ==> r->Ok_0.wf(),
            r is Ok ==> r->Ok_0 == (Light {
                position,
                color,
                specular_intensity,
                shadow_intensity,
                radius,
            }),
            r is Err ==> r->Err_0 == Rejected::ShadowIntensity,
    {
        if !within_unit_interval(shadow_intensity) {
            return Err(Rejected::ShadowIntensity);
        }
        Ok(Light { position, color, specular_intensity, shadow_intensity, radius })
    }
}

} // verus!
