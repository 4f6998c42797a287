use raycore::geometry::intersection::TriangleIntersection;
use raycore::light::Light;
use raycore::scalar::{Scalar, Vec3};

fn s(x: f32) -> Scalar {
    Scalar::from_bits(x.to_bits())
}

fn v(x: f32, y: f32, z: f32) -> Vec3 {
    Vec3::new(s(x), s(y), s(z))
}

fn occluder_at(distance: f32) -> Option<TriangleIntersection> {
    Some(TriangleIntersection {
        position: Vec3::zero(),
        tuv: v(distance, 0.25, 0.25),
        uv_excess: s(-0.5),
        distance: s(distance),
        hit_obj: 0,
    })
}

#[test]
fn default_light_parameters() {
    let light = Light::default();
    assert_eq!(light.get_base(), v(0.0, -0.5, -0.7));
    assert_eq!(light.get_direct_power(), v(14.0, 14.0, 14.0));
    assert_eq!(light.indirect_light(), v(0.5, 0.5, 0.5));
    assert_eq!(light.get_offset(), Vec3::zero());
}

#[test]
fn update_offset_sets_absolutely() {
    let mut light = Light::default();
    light.update_offset(s(1.0), s(2.0), s(3.0));
    assert_eq!(light.get_offset(), v(1.0, 2.0, 3.0));
    light.update_offset(s(0.5), s(0.5), s(0.5));
    assert_eq!(light.get_offset(), v(0.5, 0.5, 0.5));
    assert_eq!(light.get_base(), v(0.0, -0.5, -0.7));
    assert_eq!(light.get_direct_power(), v(14.0, 14.0, 14.0));
    assert_eq!(light.indirect_light(), v(0.5, 0.5, 0.5));
}

#[test]
fn occluder_between_point_and_light_zeroes_direct_light() {
    // Surface point at the origin facing a light one unit away: the
    // unshadowed amount is cos / (4 pi r^2) * power = 14 / (4 pi).
    let amount = 14.0 / (4.0 * std::f32::consts::PI);
    let unshadowed = v(amount, amount, amount);
    let shadowed = Light::direct_light(unshadowed, s(1.0), &occluder_at(0.5));
    assert_eq!(shadowed, Vec3::zero());
    let restored = Light::direct_light(unshadowed, s(1.0), &None);
    assert_eq!(restored, unshadowed);
    assert!((f32::from_bits(restored.x.to_bits()) - 1.1140846).abs() < 1e-6);
}

#[test]
fn occluder_behind_the_light_casts_no_shadow() {
    let unshadowed = v(0.25, 0.5, 0.75);
    assert_eq!(Light::direct_light(unshadowed, s(1.0), &occluder_at(1.5)), unshadowed);
    assert_eq!(Light::direct_light(unshadowed, s(1.0), &occluder_at(1.0)), unshadowed);
}

#[test]
fn occluder_at_or_behind_the_point_casts_no_shadow() {
    let unshadowed = v(0.25, 0.5, 0.75);
    assert_eq!(Light::direct_light(unshadowed, s(1.0), &occluder_at(0.0)), unshadowed);
    assert_eq!(Light::direct_light(unshadowed, s(1.0), &occluder_at(-0.5)), unshadowed);
}

#[test]
fn nan_distances_cast_no_shadow() {
    let unshadowed = v(0.25, 0.5, 0.75);
    assert_eq!(Light::direct_light(unshadowed, s(1.0), &occluder_at(f32::NAN)), unshadowed);
    assert_eq!(Light::direct_light(unshadowed, s(f32::NAN), &occluder_at(0.5)), unshadowed);
}
