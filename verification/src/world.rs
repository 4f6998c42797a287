//! The frame: which colour each canvas cell holds, and how the frame is
//! laid out in a caller's byte buffer.

use crate::light::Light;
use crate::scalar::{Scalar, Vec3};
use crate::scene::camera::{
    lemma_raster_cell, lemma_raster_row_major, lemma_raster_skips_origin, raster, raster_len,
    Camera, PixelCoordinate,
};
use dashmap::DashMap;
use std::collections::hash_map::RandomState;
use vstd::prelude::*;

verus! {

/// Bit pattern of `-3.0`, the third component of the camera's position.
pub const CAMERA_Z_BITS: u32 = 0xC040_0000;

/// A colour with eight bits per channel.
#[derive(Clone, Copy, Debug, PartialEq, Eq, Structural)]
pub struct Color {
    pub r: u8,
    pub g: u8,
    pub b: u8,
}

impl Color {
    /// The channels as `(red, green, blue)`.
    pub open spec fn channels(self) -> (u8, u8, u8) {
        (self.r, self.g, self.b)
    }

    /// The colour with the given `(red, green, blue)` channels.
    pub open spec fn of(channels: (u8, u8, u8)) -> Color {
        Color { r: channels.0, g: channels.1, b: channels.2 }
    }

    /// No light on any channel.
    pub open spec fn black() -> Color {
        Color { r: 0, g: 0, b: 0 }
    }
}

#[verifier::external_type_specification]
#[verifier::external_body]
#[verifier::reject_recursive_types(K)]
#[verifier::reject_recursive_types(V)]
#[verifier::reject_recursive_types(S)]
pub struct ExDashMap<K, V, S>(DashMap<K, V, S>);

/// The store behind a frame: `(column, row)` to `(red, green, blue)`.
pub type PixelStore = DashMap<(u32, u32), (u8, u8, u8), RandomState>;

/// What a frame holds, as a mathematical map.
pub type Frame = Map<(u32, u32), (u8, u8, u8)>;

/// The entries of a pixel store: `(column, row)` to `(red, green, blue)`.
pub uninterp spec fn pixels(store: PixelStore) -> Frame;

/// `DashMap::new`, which is trusted to return a map without entries.
#[verifier::external_body]
fn store_new() -> (store: PixelStore)
    ensures
        pixels(store) == Frame::empty(),
{
    DashMap::new()
}

/// `DashMap::clear`, which is trusted to remove every entry.
#[verifier::external_body]
fn store_clear(store: &mut PixelStore)
    ensures
        pixels(*final(store)) == Frame::empty(),
{
    store.clear()
}

/// `DashMap::insert`, which is trusted to bind `key` to `value`, to leave
/// every other entry as it was, and to return the value that `key` was bound
/// to before, if any.
#[verifier::external_body]
fn store_insert(
    store: &mut PixelStore,
    key: (u32, u32),
    value: (u8, u8, u8),
) -> (previous: Option<(u8, u8, u8)>)
    ensures
        pixels(*final(store)) == pixels(*old(store)).insert(key, value),
        previous == if pixels(*old(store)).dom().contains(key) {
            Some(pixels(*old(store))[key])
        } else {
            None
        },
{
    store.insert(key, value)
}

/// `DashMap::get`, which is trusted to find the entry of `key` if there is
/// one; the value is copied out and the guard released before returning.
#[verifier::external_body]
fn store_get(store: &PixelStore, key: (u32, u32)) -> (value: Option<(u8, u8, u8)>)
    ensures
        value == if pixels(*store).dom().contains(key) {
            Some(pixels(*store)[key])
        } else {
            None
        },
{
    match store.get(&key) {
        Some(entry) => Some(*entry.value()),
        None => None,
    }
}

/// The colour a frame shows at a coordinate: what is stored there, and
/// black where nothing is.
pub open spec fn shown(frame: Frame, coordinate: (u32, u32)) -> Color {
    if frame.dom().contains(coordinate) {
        Color::of(frame[coordinate])
    } else {
        Color::black()
    }
}

/// The colour of a pixel whose ray was shaded to `shade`: that colour if the
/// ray hit something, black if it hit nothing.
pub open spec fn pixel_color(shade: Option<Color>) -> Color {
    match shade {
        Some(color) => color,
        None => Color::black(),
    }
}

/// Whether `frame` holds exactly the colours of the first `count` shades,
/// each at the coordinate with the same index.
pub open spec fn holds_shades(
    frame: Frame,
    coordinates: Seq<(u32, u32)>,
    shades: Seq<Option<Color>>,
    count: int,
) -> bool {
    &&& forall|i: int|
        0 <= i < count ==> frame.dom().contains(#[trigger] coordinates[i]) && frame[coordinates[i]]
            == pixel_color(shades[i]).channels()
    &&& forall|c: (u32, u32)| #[trigger]
        frame.dom().contains(c) ==> exists|i: int| 0 <= i < count && coordinates[i] == c
}

/// How many coordinates get a colour when `shades` are handed out along
/// `coordinates`: as many as the shorter of the two has.
pub open spec fn paired(coordinates: Seq<(u32, u32)>, shades: Seq<Option<Color>>) -> int {
    if coordinates.len() <= shades.len() {
        coordinates.len() as int
    } else {
        shades.len() as int
    }
}

/// Index of the four-byte slot that a coordinate is written to: the row
/// times the canvas height, plus the column.
pub open spec fn slot(height: u32, coordinate: (u32, u32)) -> int {
    coordinate.1 * height + coordinate.0
}

/// The buffer after one pixel was written to a slot: blue, green, red and an
/// opaque alpha, or nothing if the slot does not lie within the buffer.
pub open spec fn put_pixel(buf: Seq<u8>, slot: int, color: Color) -> Seq<u8> {
    if 4 * slot + 4 <= buf.len() {
        buf.update(4 * slot, color.b).update(4 * slot + 1, color.g).update(
            4 * slot + 2,
            color.r,
        ).update(4 * slot + 3, 255u8)
    } else {
        buf
    }
}

/// The buffer after the pixels of `coordinates` were written in order, each
/// with the colour that `frame` shows for it.
pub open spec fn dumped(
    buf: Seq<u8>,
    frame: Frame,
    height: u32,
    coordinates: Seq<(u32, u32)>,
) -> Seq<u8>
    decreases coordinates.len(),
{
    if coordinates.len() == 0 {
        buf
    } else {
        put_pixel(
            dumped(buf, frame, height, coordinates.drop_last()),
            slot(height, coordinates.last()),
            shown(frame, coordinates.last()),
        )
    }
}

/// The four bytes of a pixel in the order they are written.
pub open spec fn pixel_bytes(color: Color) -> Seq<u8> {
    seq![color.b, color.g, color.r, 255u8]
}

/// Dumping never changes the length of the buffer.
pub proof fn lemma_dumped_len(buf: Seq<u8>, frame: Frame, height: u32, coordinates: Seq<(u32, u32)>)
    ensures
        dumped(buf, frame, height, coordinates).len() == buf.len(),
    decreases coordinates.len(),
{
    if coordinates.len() > 0 {
        lemma_dumped_len(buf, frame, height, coordinates.drop_last());
    }
}

/// A byte of the dump is either as it was in the buffer or a byte of a pixel
/// that was written to its slot; where no coordinate falls on the slot of a
/// byte, the byte is as it was.
pub proof fn lemma_dumped_byte(
    buf: Seq<u8>,
    frame: Frame,
    height: u32,
    coordinates: Seq<(u32, u32)>,
    p: int,
)
    requires
        0 <= p < buf.len(),
    ensures
        dumped(buf, frame, height, coordinates)[p] == buf[p] || exists|i: int|
            0 <= i < coordinates.len() && slot(height, #[trigger] coordinates[i]) == p / 4
                && dumped(buf, frame, height, coordinates)[p] == pixel_bytes(
                shown(frame, coordinates[i]),
            )[p % 4],
        (forall|i: int|
            0 <= i < coordinates.len() ==> slot(height, #[trigger] coordinates[i]) != p / 4)
            ==> dumped(buf, frame, height, coordinates)[p] == buf[p],
    decreases coordinates.len(),
{
    if coordinates.len() > 0 {
        let shorter = coordinates.drop_last();
        let last = coordinates.last();
        lemma_dumped_byte(buf, frame, height, shorter, p);
        lemma_dumped_len(buf, frame, height, shorter);
        let before = dumped(buf, frame, height, shorter);
        let after = dumped(buf, frame, height, coordinates);
        assert(forall|i: int| 0 <= i < shorter.len() ==> shorter[i] == coordinates[i]);
        if after[p] != before[p] {
            assert(slot(height, coordinates[coordinates.len() - 1]) == p / 4);
            assert(after[p] == pixel_bytes(shown(frame, last))[p % 4]);
        } else if before[p] != buf[p] {
            let i = choose|i: int|
                0 <= i < shorter.len() && slot(height, #[trigger] shorter[i]) == p / 4 && before[p]
                    == pixel_bytes(shown(frame, shorter[i]))[p % 4];
            assert(coordinates[i] == shorter[i]);
        }
    }
}

/// On a square canvas, after the first `count` coordinates of the traversal
/// were dumped, the slots `1..=count` that lie within the buffer hold their
/// pixels and every other byte is as before.
proof fn lemma_dumped_prefix(buf: Seq<u8>, frame: Frame, side: u32, count: int, p: int)
    requires
        0 <= count <= raster_len(side, side),
        0 <= p < buf.len(),
    ensures
        dumped(buf, frame, side, raster(side, side).take(count)).len() == buf.len(),
        dumped(buf, frame, side, raster(side, side).take(count))[p] == if 1 <= p / 4 <= count && 4
            * (p / 4) + 4 <= buf.len() {
            pixel_bytes(shown(frame, raster(side, side)[p / 4 - 1]))[p % 4]
        } else {
            buf[p]
        },
    decreases count,
{
    let coordinates = raster(side, side);
    lemma_dumped_len(buf, frame, side, coordinates.take(count));
    if count > 0 {
        let last = coordinates[count - 1];
        assert(coordinates.take(count).drop_last() =~= coordinates.take(count - 1));
        assert(coordinates.take(count).last() == last);
        lemma_dumped_prefix(buf, frame, side, count - 1, p);
        lemma_dumped_len(buf, frame, side, coordinates.take(count - 1));
        lemma_raster_cell(side, side, count - 1);
        assert(slot(side, last) == count);
    }
}

/// The cell of a square canvas that a slot stands for: column `slot % side`
/// of row `slot / side`.
pub open spec fn cell_of_slot(side: u32, slot: int) -> (u32, u32) {
    ((slot % (side as int)) as u32, (slot / (side as int)) as u32)
}

/// On a square canvas the dump is a plain row-major image without its first
/// pixel: the byte at position `p` belongs to the pixel in slot `p / 4`.
/// Every slot from 1 up to the last cell of the canvas that lies within the
/// buffer holds its pixel's blue, green, red and an alpha of 255. Slot 0, the
/// origin, and everything behind the canvas keep what the buffer held.
pub proof fn lemma_dumped_square(buf: Seq<u8>, frame: Frame, side: u32, p: int)
    requires
        0 <= p < buf.len(),
    ensures
        dumped(buf, frame, side, raster(side, side)).len() == buf.len(),
        dumped(buf, frame, side, raster(side, side))[p] == if 1 <= p / 4 < side * side && 4 * (p
            / 4) + 4 <= buf.len() {
            pixel_bytes(shown(frame, cell_of_slot(side, p / 4)))[p % 4]
        } else {
            buf[p]
        },
{
    let coordinates = raster(side, side);
    assert(coordinates.take(coordinates.len() as int) =~= coordinates);
    lemma_dumped_prefix(buf, frame, side, coordinates.len() as int, p);
    assert(side * side >= side) by (nonlinear_arith);
}

/// A frame that holds colours for coordinates of the traversal holds none
/// for the origin, which therefore shows black.
pub proof fn lemma_origin_stays_black(
    frame: Frame,
    height: u32,
    width: u32,
    shades: Seq<Option<Color>>,
    count: int,
)
    requires
        0 <= count <= raster_len(height, width),
        holds_shades(frame, raster(height, width), shades, count),
    ensures
        !frame.dom().contains((0u32, 0u32)),
        shown(frame, (0u32, 0u32)) == Color::black(),
{
    if frame.dom().contains((0u32, 0u32)) {
        let i = choose|i: int| 0 <= i < count && raster(height, width)[i] == (0u32, 0u32);
        lemma_raster_skips_origin(height, width, i);
    }
}

/// A frame traced on a square canvas and then dumped: the pixel in slot `k`,
/// for every `k` from 1 up to the last cell of the canvas that lies within
/// the buffer, shows the colour of `shades[k - 1]`, or black where the
/// shades have run out. Slot 0 and everything behind the canvas keep what
/// the buffer held.
pub proof fn lemma_traced_then_dumped(
    buf: Seq<u8>,
    frame: Frame,
    side: u32,
    shades: Seq<Option<Color>>,
    p: int,
)
    requires
        0 <= p < buf.len(),
        holds_shades(frame, raster(side, side), shades, paired(raster(side, side), shades)),
    ensures
        dumped(buf, frame, side, raster(side, side))[p] == if 1 <= p / 4 < side * side && 4 * (p
            / 4) + 4 <= buf.len() {
            if p / 4 - 1 < shades.len() {
                pixel_bytes(pixel_color(shades[p / 4 - 1]))[p % 4]
            } else {
                pixel_bytes(Color::black())[p % 4]
            }
        } else {
            buf[p]
        },
{
    let coordinates = raster(side, side);
    let count = paired(coordinates, shades);
    let k = p / 4;
    lemma_dumped_square(buf, frame, side, p);
    assert(side * side >= side) by (nonlinear_arith);
    if 1 <= k < side * side {
        let cell = coordinates[k - 1];
        assert(cell == cell_of_slot(side, k));
        if k - 1 >= count && frame.dom().contains(cell) {
            let i = choose|i: int| 0 <= i < count && coordinates[i] == cell;
            lemma_raster_row_major(side, side, i, k - 1);
        }
    }
}

/// The state of one rendering: camera, light and the current frame.
pub struct World {
    pub camera: Camera,
    pub pixel_map: PixelStore,
    pub light: Light,
}

impl World {
    /// The current frame.
    pub open spec fn frame(&self) -> Frame {
        pixels(self.pixel_map)
    }

    /// A world for a canvas of the given size: the camera at `(0, 0, -3)`
    /// looking straight ahead, the light at its defaults, the frame empty.
    pub fn new(canvas_height: u32, canvas_width: u32) -> (world: Self)
        ensures
            world.camera == (Camera {
                width: canvas_width,
                height: canvas_height,
                world_position: Vec3::from_bits_spec(0, 0, CAMERA_Z_BITS),
                yaw: Scalar::zero(),
                z_translate: Scalar::zero(),
            }),
            world.light.is_default(),
            world.frame() == Frame::empty(),
    {
        World {
            camera: Camera::new(canvas_height, canvas_width, Vec3::from_bits(0, 0, CAMERA_Z_BITS)),
            pixel_map: store_new(),
            light: Light::default(),
        }
    }

    /// Replaces the frame. `shades[i]` is what shading the ray through the
    /// `i`-th coordinate of the traversal gave: the colour of the closest hit,
    /// or `None` if the ray hit nothing. Every stored colour is forgotten;
    /// then the canvas is walked in raster order and each coordinate gets the
    /// colour of its shade, black for `None`, for as long as coordinates and
    /// shades both last. Camera and light are left alone.
    pub fn tracing(&mut self, shades: &[Option<Color>])
        ensures
            final(self).camera == old(self).camera,
            final(self).light == old(self).light,
            holds_shades(
                final(self).frame(),
                raster(old(self).camera.height, old(self).camera.width),
                shades@,
                paired(raster(old(self).camera.height, old(self).camera.width), shades@),
            ),
    {
        let ghost coordinates = raster(self.camera.height, self.camera.width);
        let ghost height = self.camera.height;
        let ghost width = self.camera.width;
        store_clear(&mut self.pixel_map);
        let mut scanline = self.camera.scanline_iter();
        let mut i: usize = 0;
        loop
            invariant
                self.camera == old(self).camera,
                self.light == old(self).light,
                coordinates == raster(height, width),
                0 <= i <= shades@.len(),
                i <= coordinates.len(),
                scanline.remaining() == coordinates.skip(i as int),
                holds_shades(pixels(self.pixel_map), coordinates, shades@, i as int),
            ensures
                i == paired(coordinates, shades@),
                self.camera == old(self).camera,
                self.light == old(self).light,
                holds_shades(pixels(self.pixel_map), coordinates, shades@, i as int),
            decreases shades@.len() - i,
        {
            if i >= shades.len() {
                break;
            }
            let next = scanline.next();
            if next.is_none() {
                break;
            }
            let coordinate = next.unwrap();
            let color = match shades[i] {
                Some(color) => color,
                None => Color { r: 0, g: 0, b: 0 },
            };
            let ghost before = pixels(self.pixel_map);
            let _ = store_insert(&mut self.pixel_map, coordinate, (color.r, color.g, color.b));
            proof {
                assert(coordinate == coordinates[i as int]);
                assert(coordinates.skip(i as int).skip(1) =~= coordinates.skip(i + 1));
                let after = pixels(self.pixel_map);
                assert forall|j: int| 0 <= j < i + 1 implies after.dom().contains(
                    #[trigger] coordinates[j],
                ) && after[coordinates[j]] == pixel_color(shades@[j]).channels() by {
                    if j < i {
                        lemma_raster_row_major(height, width, j, i as int);
                    }
                }
                assert forall|c: (u32, u32)| #[trigger] after.dom().contains(c) implies exists|
                    j: int,
                |
                    0 <= j < i + 1 && coordinates[j] == c by {
                    if c == coordinate {
                        assert(coordinates[i as int] == c);
                    } else {
                        assert(before.dom().contains(c));
                        let j = choose|j: int| 0 <= j < i && coordinates[j] == c;
                        assert(0 <= j < i + 1 && coordinates[j] == c);
                    }
                }
            }
            i = i + 1;
        }
    }

    /// The colour stored for a coordinate, if any.
    pub fn color_at(&self, coordinate: &PixelCoordinate) -> (color: Option<Color>)
        ensures
            color == if self.frame().dom().contains(coordinate.pair()) {
                Some(Color::of(self.frame()[coordinate.pair()]))
            } else {
                None
            },
    {
        match store_get(&self.pixel_map, (coordinate.width_idx, coordinate.height_idx)) {
            Some(channels) => Some(Color { r: channels.0, g: channels.1, b: channels.2 }),
            None => None,
        }
    }

    /// Writes the frame into `buf`, four bytes per pixel: blue, green, red,
    /// alpha. The canvas is walked in raster order; the pixel at column `x`
    /// of row `y` goes to the slot `y * height + x`, with the colour stored
    /// for it, or black if none is. A pixel whose slot does not lie within
    /// `buf` is skipped. Bytes that no pixel is written to keep their value.
    pub fn dump_pixels(&self, buf: &mut [u8])
        ensures
            final(buf)@ == dumped(
                old(buf)@,
                self.frame(),
                self.camera.height,
                raster(self.camera.height, self.camera.width),
            ),
    {
        let ghost coordinates = raster(self.camera.height, self.camera.width);
        let ghost initial = buf@;
        let ghost mut done: int = 0;
        let height = self.camera.height;
        let slots: usize = buf.len() / 4;
        let mut scanline = self.camera.scanline_iter();
        loop
            invariant
                height == self.camera.height,
                coordinates == raster(self.camera.height, self.camera.width),
                0 <= done <= coordinates.len(),
                scanline.remaining() == coordinates.skip(done),
                buf@.len() == initial.len(),
                initial.len() <= usize::MAX,
                slots == initial.len() / 4,
                buf@ == dumped(initial, self.frame(), height, coordinates.take(done)),
            ensures
                buf@ == dumped(initial, self.frame(), height, coordinates),
            decreases coordinates.len() - done,
        {
            let next = scanline.next();
            if next.is_none() {
                assert(coordinates.take(done) =~= coordinates);
                break;
            }
            let (x, y) = next.unwrap();
            let color = match store_get(&self.pixel_map, (x, y)) {
                Some(channels) => Color { r: channels.0, g: channels.1, b: channels.2 },
                None => Color { r: 0, g: 0, b: 0 },
            };
            assert(y * height <= 0xFFFF_FFFF * 0xFFFF_FFFF) by (nonlinear_arith)
                requires
                    0 <= y <= 0xFFFF_FFFF,
                    0 <= height <= 0xFFFF_FFFF,
            ;
            let index: u64 = (y as u64) * (height as u64) + (x as u64);
            let ghost before = buf@;
            if index < slots as u64 {
                let at: usize = (index as usize) * 4;
                buf[at] = color.b;
                buf[at + 1] = color.g;
                buf[at + 2] = color.r;
                buf[at + 3] = 255;
            }
            proof {
                assert((x, y) == coordinates[done]);
                assert(coordinates.skip(done).skip(1) =~= coordinates.skip(done + 1));
                assert(coordinates.take(done + 1).drop_last() =~= coordinates.take(done));
                assert(coordinates.take(done + 1).last() == (x, y));
                assert(color == shown(self.frame(), (x, y)));
                assert(buf@ =~= put_pixel(before, slot(height, (x, y)), color));
                done = done + 1;
            }
        }
    }
}

} // verus!
