use glam::{mat3, Mat3, Vec3 as V};
use raycore::geometry::intersection::{closest_intersection, PlaneSolve, TriangleIntersection};
use raycore::light::Light;
use raycore::scalar::{Scalar, Vec3};
use raycore::scene::camera::Camera;
use raycore::world::{Color, World};

struct Triangle {
    v0: V,
    v1: V,
    v2: V,
    color: V,
}

fn s(x: f32) -> Scalar {
    Scalar::from_bits(x.to_bits())
}

fn f(x: Scalar) -> f32 {
    f32::from_bits(x.to_bits())
}

fn pack(v: V) -> Vec3 {
    Vec3::new(s(v.x), s(v.y), s(v.z))
}

fn unpack(v: Vec3) -> V {
    V::new(f(v.x), f(v.y), f(v.z))
}

fn normal(t: &Triangle) -> V {
    (t.v2 - t.v0).cross(t.v1 - t.v0).normalize()
}

fn solve(origin: V, direction: V, t: &Triangle) -> PlaneSolve {
    let a = mat3(-direction, t.v1 - t.v0, t.v2 - t.v0);
    let tuv = a.inverse() * (origin - t.v0);
    PlaneSolve {
        determinant: s(a.determinant()),
        tuv: pack(tuv),
        uv_excess: s(tuv.y + tuv.z - 1f32),
        position: pack(origin + tuv.x * direction),
    }
}

fn closest(objs: &[Triangle], origin: V, direction: V) -> Option<TriangleIntersection> {
    let solves: Vec<PlaneSolve> = objs.iter().map(|t| solve(origin, direction, t)).collect();
    closest_intersection(&solves)
}

fn direct(light: &Light, point: V, n: V, objs: &[Triangle]) -> V {
    let source = unpack(light.get_base()) + unpack(light.get_offset());
    let r = source - point;
    let unshadowed = (r.normalize().dot(n)).max(0f32) / (4f32 * std::f32::consts::PI * r.dot(r))
        * unpack(light.get_direct_power());
    let from = point + 1e-4 * n;
    let shadow_hit = closest(objs, from, (source - from).normalize());
    unpack(Light::direct_light(pack(unshadowed), s(r.length()), &shadow_hit))
}

fn quantize(color: V) -> Color {
    let c = (color * 255.0).clamp(V::ZERO, V::splat(255.0)).round();
    Color { r: c.x as u8, g: c.y as u8, b: c.z as u8 }
}

fn ray_through(camera: &Camera, x: u32, y: u32) -> (V, V) {
    let rot = Mat3::from_rotation_y(f(camera.yaw));
    let direction = (x as f32 - camera.width as f32 / 2.0) * rot.col(0)
        + (y as f32 - camera.height as f32 / 2.0) * rot.col(1)
        + camera.width as f32 * rot.col(2);
    (unpack(camera.world_position) + V::new(0.0, 0.0, f(camera.z_translate)), direction)
}

fn render(world: &mut World, objs: &[Triangle]) -> Vec<u8> {
    let mut shades = Vec::new();
    let mut scanline = world.camera.scanline_iter();
    while let Some((x, y)) = scanline.next() {
        let (origin, direction) = ray_through(&world.camera, x, y);
        shades.push(closest(objs, origin, direction).map(|hit| {
            let t = &objs[hit.hit_obj];
            let lit = direct(&world.light, unpack(hit.get_hit_point()), normal(t), objs)
                + unpack(world.light.indirect_light());
            quantize(t.color * lit)
        }));
    }
    world.tracing(&shades);
    let mut buf = vec![0u8; world.camera.get_canvase_size() as usize * 4];
    world.dump_pixels(&mut buf);
    buf
}

/// A wall one unit behind the world origin, facing the camera.
fn wall() -> Triangle {
    Triangle {
        v0: V::new(-10.0, -10.0, 1.0),
        v1: V::new(10.0, -10.0, 1.0),
        v2: V::new(0.0, 10.0, 1.0),
        color: V::splat(0.75),
    }
}

/// A small triangle on the segment from the middle of the wall to the light.
fn occluder() -> Triangle {
    Triangle {
        v0: V::new(-0.1, -0.4, 0.0),
        v1: V::new(0.1, -0.4, 0.0),
        v2: V::new(0.0, -0.2, 0.0),
        color: V::new(0.75, 0.15, 0.15),
    }
}

fn pixel(buf: &[u8], x: usize, y: usize) -> &[u8] {
    &buf[4 * (y * 10 + x)..4 * (y * 10 + x) + 4]
}

#[test]
fn render_a_wall_end_to_end() {
    let mut world = World::new(10, 10);
    let buf = render(&mut world, &[wall()]);
    assert_eq!(buf.len(), 400);
    assert_eq!(pixel(&buf, 0, 0), &[0, 0, 0, 0]);
    for y in 0..10 {
        for x in 0..10 {
            if (x, y) != (0, 0) {
                let px = pixel(&buf, x, y);
                assert_eq!(px[3], 255);
                assert!(px[0] > 0 && px[0] == px[1] && px[1] == px[2]);
            }
        }
    }
    // The middle ray meets the wall at (0, 0, 1): the light is sqrt(3.14)
    // away at a cosine of 1.7 / sqrt(3.14), so the wall reflects
    // 0.75 * (14 * cos / (4 pi * 3.14) + 0.5) = 0.6303, which is 161 of 255.
    assert_eq!(pixel(&buf, 5, 5), &[161, 161, 161, 255]);
}

#[test]
fn render_a_shadow_end_to_end() {
    let mut world = World::new(10, 10);
    let buf = render(&mut world, &[wall(), occluder()]);
    // In shadow only the ambient term is left: 0.75 * 0.5 = 0.375, 96 of 255.
    assert_eq!(pixel(&buf, 5, 5), &[96, 96, 96, 255]);
    // One row up the camera looks at the occluder itself.
    let px = pixel(&buf, 5, 4);
    assert!(px[2] > px[1] && px[1] == px[0]);
    assert_eq!(pixel(&buf, 0, 0), &[0, 0, 0, 0]);
}

#[test]
fn render_follows_the_light_offset() {
    let mut world = World::new(10, 10);
    let near = render(&mut world, &[wall()]);
    world.light.update_offset(s(0.0), s(0.0), s(-5.0));
    let far = render(&mut world, &[wall()]);
    assert!(pixel(&far, 5, 5)[0] < pixel(&near, 5, 5)[0]);
    world.light.update_offset(s(0.0), s(0.0), s(0.0));
    assert_eq!(render(&mut world, &[wall()]), near);
}

#[test]
fn render_of_an_empty_scene_is_black() {
    let mut world = World::new(10, 10);
    let buf = render(&mut world, &[]);
    assert_eq!(pixel(&buf, 0, 0), &[0, 0, 0, 0]);
    for k in 1..100 {
        assert_eq!(&buf[4 * k..4 * k + 4], &[0, 0, 0, 255]);
    }
}
