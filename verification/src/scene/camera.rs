//! Canvas coordinates, the raster traversal and the camera's parameters.

use crate::scalar::{Scalar, Vec3};
use vstd::arithmetic::div_mod::{
    lemma_fundamental_div_mod, lemma_fundamental_div_mod_converse, lemma_mod_bound,
};
use vstd::prelude::*;

verus! {

/// A pixel position on the canvas: column (`width_idx`), then row
/// (`height_idx`).
#[derive(Clone, Copy, Debug, PartialEq, Eq, Hash, Structural)]
pub struct PixelCoordinate {
    pub width_idx: u32,
    pub height_idx: u32,
}

impl From<(u32, u32)> for PixelCoordinate {
    fn from(value: (u32, u32)) -> (r: Self) {
        Self { width_idx: value.0, height_idx: value.1 }
    }
}

impl vstd::std_specs::convert::FromSpecImpl<(u32, u32)> for PixelCoordinate {
    open spec fn obeys_from_spec() -> bool {
        true
    }

    open spec fn from_spec(value: (u32, u32)) -> Self {
        PixelCoordinate { width_idx: value.0, height_idx: value.1 }
    }
}

impl PixelCoordinate {
    /// The coordinate as a `(column, row)` pair.
    pub open spec fn pair(self) -> (u32, u32) {
        (self.width_idx, self.height_idx)
    }

    pub fn column(&self) -> (r: u32)
        ensures
            r == self.width_idx,
    {
        self.width_idx
    }

    pub fn row(&self) -> (r: u32)
        ensures
            r == self.height_idx,
    {
        self.height_idx
    }
}

/// Length of a row as the traversal steps through it. A canvas without
/// columns is stepped through like one with a single column.
pub open spec fn stride(width: u32) -> int {
    if width == 0 {
        1
    } else {
        width as int
    }
}

/// How many coordinates the traversal of a canvas emits: one less than the
/// canvas has cells, because the walk starts by stepping off the origin.
pub open spec fn raster_len(height: u32, width: u32) -> nat {
    if height == 0 {
        0
    } else {
        (stride(width) * height - 1) as nat
    }
}

/// The `i`-th coordinate of the traversal, as `(column, row)`.
pub open spec fn raster_at(width: u32, i: int) -> (u32, u32) {
    (((i + 1) % stride(width)) as u32, ((i + 1) / stride(width)) as u32)
}

/// The traversal of a canvas: row by row, each row from left to right,
/// without the origin `(0, 0)`.
pub open spec fn raster(height: u32, width: u32) -> Seq<(u32, u32)> {
    Seq::new(raster_len(height, width), |i: int| raster_at(width, i))
}

/// The `i`-th emitted coordinate is the cell `i + 1` steps from the origin
/// in row-major order, and lies in a row of the canvas.
pub proof fn lemma_raster_cell(height: u32, width: u32, i: int)
    requires
        0 <= i < raster_len(height, width),
    ensures
        raster(height, width)[i] == raster_at(width, i),
        raster_at(width, i).1 * stride(width) + raster_at(width, i).0 == i + 1,
        0 <= raster_at(width, i).0 < stride(width),
        0 <= raster_at(width, i).1 < height,
{
    let row_len = stride(width);
    let q = (i + 1) / row_len;
    let r = (i + 1) % row_len;
    assert(row_len * height >= 1) by (nonlinear_arith)
        requires
            row_len >= 1,
            height >= 1,
    ;
    lemma_fundamental_div_mod(i + 1, row_len);
    lemma_mod_bound(i + 1, row_len);
    assert(0 <= q < height) by (nonlinear_arith)
        requires
            row_len >= 1,
            0 <= r < row_len,
            i + 1 == row_len * q + r,
            0 < i + 1 < row_len * height,
    ;
    assert(q * row_len == row_len * q) by (nonlinear_arith);
}

/// Every cell of the canvas other than the origin is emitted, at the index
/// that its row-major position gives.
pub proof fn lemma_raster_covers(height: u32, width: u32, x: u32, y: u32)
    requires
        x < width,
        y < height,
        (x, y) != (0u32, 0u32),
    ensures
        0 <= y * width + x - 1 < raster(height, width).len(),
        raster(height, width)[y * width + x - 1] == (x, y),
{
    let i = y * width + x - 1;
    assert(0 <= i < width * height - 1) by (nonlinear_arith)
        requires
            i == y * width + x - 1,
            0 <= x < width,
            0 <= y < height,
            x != 0 || y != 0,
    ;
    lemma_fundamental_div_mod_converse(i + 1, width as int, y as int, x as int);
}

/// The origin is never emitted.
pub proof fn lemma_raster_skips_origin(height: u32, width: u32, i: int)
    requires
        0 <= i < raster(height, width).len(),
    ensures
        raster(height, width)[i] != (0u32, 0u32),
{
    lemma_raster_cell(height, width, i);
    let cell = raster_at(width, i);
    if cell == (0u32, 0u32) {
        assert(cell.1 * stride(width) + cell.0 == 0) by (nonlinear_arith)
            requires
                cell.1 == 0,
                cell.0 == 0,
        ;
    }
}

/// Emitted coordinates lie on the canvas, provided it has a column at all.
pub proof fn lemma_raster_in_canvas(height: u32, width: u32, i: int)
    requires
        0 <= i < raster(height, width).len(),
        width >= 1,
    ensures
        raster(height, width)[i].0 < width,
        raster(height, width)[i].1 < height,
{
    lemma_raster_cell(height, width, i);
}

/// The traversal is row-major: of two emitted coordinates the earlier one
/// lies in an earlier row, or in the same row further left. In particular no
/// coordinate is emitted twice.
pub proof fn lemma_raster_row_major(height: u32, width: u32, i: int, j: int)
    requires
        0 <= i < j < raster(height, width).len(),
    ensures
        raster(height, width)[i].1 < raster(height, width)[j].1 || (raster(height, width)[i].1
            == raster(height, width)[j].1 && raster(height, width)[i].0 < raster(
            height,
            width,
        )[j].0),
        raster(height, width)[i] != raster(height, width)[j],
{
    lemma_raster_cell(height, width, i);
    lemma_raster_cell(height, width, j);
    let row_len = stride(width);
    let a = raster_at(width, i);
    let b = raster_at(width, j);
    assert(a.1 < b.1 || (a.1 == b.1 && a.0 < b.0)) by (nonlinear_arith)
        requires
            a.1 * row_len + a.0 < b.1 * row_len + b.0,
            0 <= a.0 < row_len,
            0 <= b.0 < row_len,
            0 <= a.1,
            0 <= b.1,
    ;
}

/// Walks the canvas in raster order.
#[derive(Clone, Copy, Debug)]
pub struct ScanlineIter {
    cur_width_idx: u32,
    cur_height_idx: u32,
    width: u32,
    height: u32,
}

impl ScanlineIter {
    #[verifier::type_invariant]
    spec fn column_in_row(self) -> bool {
        (self.cur_width_idx as int) < stride(self.width)
    }

    /// Cells walked so far, the starting cell not counted.
    spec fn steps(self) -> int {
        self.cur_height_idx * stride(self.width) + self.cur_width_idx
    }

    /// The coordinates that are still to come, in order.
    pub closed spec fn remaining(self) -> Seq<(u32, u32)> {
        if self.cur_height_idx >= self.height {
            Seq::empty()
        } else {
            raster(self.height, self.width).skip(self.steps())
        }
    }

    /// Canvas height the iterator was made for.
    pub closed spec fn canvas_height(self) -> u32 {
        self.height
    }

    /// Canvas width the iterator was made for.
    pub closed spec fn canvas_width(self) -> u32 {
        self.width
    }

    /// A traversal of a `height` by `width` canvas, at its start.
    pub fn new(height: u32, width: u32) -> (it: Self)
        ensures
            it.remaining() == raster(height, width),
            it.canvas_height() == height,
            it.canvas_width() == width,
    {
        let it = Self { cur_width_idx: 0, cur_height_idx: 0, width, height };
        assert(it.remaining() =~= raster(height, width));
        it
    }

    /// Emits the next coordinate, or `None` once the canvas is exhausted.
    /// An exhausted iterator stays exhausted.
    pub fn next(&mut self) -> (r: Option<(u32, u32)>)
        ensures
            final(self).canvas_height() == old(self).canvas_height(),
            final(self).canvas_width() == old(self).canvas_width(),
            old(self).remaining().len() == 0 ==> r is None && final(self).remaining().len() == 0,
            old(self).remaining().len() > 0 ==> r == Some(old(self).remaining()[0])
                && final(self).remaining() == old(self).remaining().skip(1),
    {
        proof {
            use_type_invariant(&*self);
        }
        if self.cur_height_idx >= self.height {
            return None;
        }
        let ghost before = *self;
        let ghost row_len = stride(self.width);
        let mut column: u32 = self.cur_width_idx + 1;
        let mut row: u32 = self.cur_height_idx;
        if column >= self.width {
            column = 0;
            row = row + 1;
        }
        proof {
            // One cell further, whether within the row or onto the next one.
            assert(row * row_len + column == before.steps() + 1) by (nonlinear_arith)
                requires
                    row_len >= 1,
                    (column == before.cur_width_idx + 1 && row == before.cur_height_idx && column
                        < row_len) || (column == 0 && row == before.cur_height_idx + 1
                        && before.cur_width_idx + 1 == row_len),
                    before.steps() == before.cur_height_idx * row_len + before.cur_width_idx,
            ;
            lemma_fundamental_div_mod_converse(before.steps() + 1, row_len, row as int, column as int);
            assert(before.steps() >= 0) by (nonlinear_arith)
                requires
                    before.steps() == before.cur_height_idx * row_len + before.cur_width_idx,
                    row_len >= 1,
            ;
            if row < before.height {
                assert(row * row_len + column <= row_len * before.height - 1) by (nonlinear_arith)
                    requires
                        row_len >= 1,
                        0 <= column < row_len,
                        0 <= row < before.height,
                ;
            } else {
                assert(row * row_len + column == row_len * before.height) by (nonlinear_arith)
                    requires
                        row == before.height,
                        column == 0,
                ;
            }
        }
        self.cur_width_idx = column;
        self.cur_height_idx = row;
        if row >= self.height {
            assert(before.remaining().len() == 0);
            return None;
        }
        assert(before.remaining()[0] == (column, row));
        assert(self.remaining() =~= before.remaining().skip(1));
        Some((column, row))
    }
}

/// A pinhole camera over a canvas of `width` by `height` pixels. Its focal
/// length is the canvas width; its orientation is a rotation of the canonical
/// basis about the vertical axis by the yaw angle.
#[derive(Clone, Copy, Debug, PartialEq, Eq, Structural)]
pub struct Camera {
    pub width: u32,
    pub height: u32,
    /// Where the camera stands in the world.
    pub world_position: Vec3,
    /// Rotation about the vertical axis, in radians.
    pub yaw: Scalar,
    /// Offset added to the third component of the position when rays are cast.
    pub z_translate: Scalar,
}

impl Camera {
    /// A camera at `pos`, looking straight ahead.
    pub fn new(canvas_height: u32, canvas_width: u32, pos: Vec3) -> (camera: Self)
        ensures
            camera == (Camera {
                width: canvas_width,
                height: canvas_height,
                world_position: pos,
                yaw: Scalar::zero(),
                z_translate: Scalar::zero(),
            }),
    {
        Self {
            width: canvas_width,
            height: canvas_height,
            world_position: pos,
            yaw: Scalar::zero(),
            z_translate: Scalar::zero(),
        }
    }

    /// A fresh traversal of this camera's canvas.
    pub fn scanline_iter(&self) -> (it: ScanlineIter)
        ensures
            it.remaining() == raster(self.height, self.width),
            it.canvas_height() == self.height,
            it.canvas_width() == self.width,
    {
        ScanlineIter::new(self.height, self.width)
    }

    /// Number of cells of the canvas.
    pub fn get_canvase_size(&self) -> (size: u32)
        requires
            self.height * self.width <= u32::MAX,
        ensures
            size == self.height * self.width,
    {
        self.height * self.width
    }

    /// Replaces the yaw angle; nothing else changes.
    pub fn set_yaw(&mut self, yaw: Scalar)
        ensures
            *final(self) == (Camera { yaw, ..*old(self) }),
    {
        self.yaw = yaw;
    }

    /// Replaces the z offset; nothing else changes.
    pub fn set_z_translate(&mut self, offset: Scalar)
        ensures
            *final(self) == (Camera { z_translate: offset, ..*old(self) }),
    {
        self.z_translate = offset;
    }
}

} // verus!
