//! The light: a point source with a movable offset, a flat ambient term, and
//! the rule that decides whether a surface point lies in shadow.

use crate::geometry::intersection::TriangleIntersection;
use crate::scalar::{Scalar, Vec3};
use vstd::prelude::*;

verus! {

/// Bit pattern of `-0.5`.
pub const SOURCE_Y_BITS: u32 = 0xBF00_0000;

/// Bit pattern of `-0.7`.
pub const SOURCE_Z_BITS: u32 = 0xBF33_3333;

/// Bit pattern of `14.0`.
pub const DIRECT_POWER_BITS: u32 = 0x4160_0000;

/// Bit pattern of `0.5`.
pub const INDIRECT_POWER_BITS: u32 = 0x3F00_0000;

/// A point light. Base position and powers are fixed once the light is
/// made; only the offset moves.
#[derive(Clone, Copy, Debug, PartialEq, Eq, Structural)]
pub struct Light {
    source: Vec3,
    direct_power: Vec3,
    indirect_power: Vec3,
    offset: Vec3,
}

/// Whether something hides the light from a surface point: the shadow ray
/// hit an occluder at a positive distance, strictly nearer than the light.
pub open spec fn occluded(shadow_hit: Option<TriangleIntersection>, light_distance: Scalar) -> bool {
    match shadow_hit {
        Some(hit) => Scalar::zero().less(hit.distance) && hit.distance.less(light_distance),
        None => false,
    }
}

impl Default for Light {
    /// The light at `(0, -0.5, -0.7)` with direct power 14 and ambient power
    /// 0.5 on every channel, not displaced.
    fn default() -> (light: Self)
        ensures
            light.is_default(),
    {
        Self {
            source: Vec3::from_bits(0, SOURCE_Y_BITS, SOURCE_Z_BITS),
            direct_power: Vec3::from_bits(DIRECT_POWER_BITS, DIRECT_POWER_BITS, DIRECT_POWER_BITS),
            indirect_power: Vec3::from_bits(
                INDIRECT_POWER_BITS,
                INDIRECT_POWER_BITS,
                INDIRECT_POWER_BITS,
            ),
            offset: Vec3::zero(),
        }
    }
}

impl Light {
    /// Whether this is the light as `default` makes it.
    pub open spec fn is_default(&self) -> bool {
        &&& self.base() == Vec3::from_bits_spec(0, SOURCE_Y_BITS, SOURCE_Z_BITS)
        &&& self.direct_power() == Vec3::from_bits_spec(
            DIRECT_POWER_BITS,
            DIRECT_POWER_BITS,
            DIRECT_POWER_BITS,
        )
        &&& self.ambient() == Vec3::from_bits_spec(
            INDIRECT_POWER_BITS,
            INDIRECT_POWER_BITS,
            INDIRECT_POWER_BITS,
        )
        &&& self.offset() == Vec3::zero()
    }

    /// The fixed position that the offset is added to.
    pub closed spec fn base(&self) -> Vec3 {
        self.source
    }

    /// Power of the direct term, per channel.
    pub closed spec fn direct_power(&self) -> Vec3 {
        self.direct_power
    }

    /// Power of the ambient term, per channel.
    pub closed spec fn ambient(&self) -> Vec3 {
        self.indirect_power
    }

    /// Displacement of the source from its base position.
    pub closed spec fn offset(&self) -> Vec3 {
        self.offset
    }

    /// The direct light that reaches a surface point: nothing if an occluder
    /// lies strictly between the point and the light, else the unshadowed
    /// amount. `unshadowed` is the inverse-square falloff times the clamped
    /// cosine times the direct power, `light_distance` the distance from the
    /// point to the source, and `shadow_hit` the closest hit of the shadow
    /// ray cast from the point towards the source.
    pub fn direct_light(
        unshadowed: Vec3,
        light_distance: Scalar,
        shadow_hit: &Option<TriangleIntersection>,
    ) -> (light: Vec3)
        ensures
            light == if occluded(*shadow_hit, light_distance) {
                Vec3::zero()
            } else {
                unshadowed
            },
    {
        match shadow_hit {
            Some(hit) => {
                let distance = hit.get_distance();
                if distance.gt(Scalar::zero()) && light_distance.gt(distance) {
                    Vec3::zero()
                } else {
                    unshadowed
                }
            },
            None => unshadowed,
        }
    }

    /// The ambient light, the same everywhere.
    pub fn indirect_light(&self) -> (light: Vec3)
        ensures
            light == self.ambient(),
    {
        self.indirect_power
    }

    /// Sets the displacement of the source to `(x, y, z)`, whatever it was.
    pub fn update_offset(&mut self, x: Scalar, y: Scalar, z: Scalar)
        ensures
            final(self).offset() == (Vec3 { x, y, z }),
            final(self).base() == old(self).base(),
            final(self).direct_power() == old(self).direct_power(),
            final(self).ambient() == old(self).ambient(),
    {
        self.offset = Vec3::new(x, y, z);
    }

    pub fn get_base(&self) -> (r: Vec3)
        ensures
            r == self.base(),
    {
        self.source
    }

    pub fn get_direct_power(&self) -> (r: Vec3)
        ensures
            r == self.direct_power(),
    {
        self.direct_power
    }

    pub fn get_offset(&self) -> (r: Vec3)
        ensures
            r == self.offset(),
    {
        self.offset
    }
}

} // verus!
