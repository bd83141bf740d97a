//! The texture atlas: an ordered, densely packed list of frame rectangles
//! over a shared texture, addressed by a stable zero-based index.  Frames are
//! only ever appended, never removed or reordered, so an index handed to a
//! sprite instance stays valid for the atlas's lifetime.

use crate::geom::{Q2, Rect, Vec2};
use crate::rat::{abs_i, lemma_fits_chk, q_eq, q_le, Q, Rat};
use vstd::arithmetic::div_mod::{
    lemma_div_multiples_vanish_fancy, lemma_mod_multiples_vanish, lemma_small_mod,
};
use vstd::prelude::*;

verus! {

/// An opaque, stable identifier for a texture owned by the host's asset
/// table; this library only stores and returns it.
#[derive(Clone, Copy, PartialEq, Eq, Structural, Debug)]
pub struct TextureHandle {
    pub id: u128,
}

impl TextureHandle {
    pub fn new(id: u128) -> (r: TextureHandle)
        ensures
            r.id == id,
    {
        TextureHandle { id }
    }
}

/// An RGBA tint.
#[derive(Clone, Copy, PartialEq, Eq, Structural, Debug)]
pub struct Color {
    pub red: Rat,
    pub green: Rat,
    pub blue: Rat,
    pub alpha: Rat,
}

impl Color {
    pub open spec fn wf(self) -> bool {
        self.red.wf() && self.green.wf() && self.blue.wf() && self.alpha.wf()
    }

    pub open spec fn is_white(self) -> bool {
        &&& self.red@ == (1int, 1int)
        &&& self.green@ == (1int, 1int)
        &&& self.blue@ == (1int, 1int)
        &&& self.alpha@ == (1int, 1int)
    }

    pub fn white() -> (c: Color)
        ensures
            c.is_white(),
            c.wf(),
    {
        Color { red: Rat::one(), green: Rat::one(), blue: Rat::one(), alpha: Rat::one() }
    }
}

/// The per-draw record of one sprite instance: which frame of the atlas it
/// samples, and its tint.
#[derive(Clone, Copy, PartialEq, Eq, Structural, Debug)]
pub struct ShadedAtlasSprite {
    pub color: Color,
    pub index: u32,
}

impl Default for ShadedAtlasSprite {
    /// Frame zero, white tint.
    fn default() -> (s: Self)
        ensures
            s.index == 0,
            s.color.is_white(),
            s.color.wf(),
    {
        ShadedAtlasSprite { color: Color::white(), index: 0 }
    }
}

impl ShadedAtlasSprite {
    pub fn new(index: u32) -> (s: ShadedAtlasSprite)
        ensures
            s.index == index,
            s.color.is_white(),
            s.color.wf(),
    {
        ShadedAtlasSprite { color: Color::white(), index }
    }
}

/// The frame rectangle of cell `(row, col)` of a `columns x rows` grid over
/// `size`, as unreduced rational pairs: `(min, max)`, each `(x, y)`.
pub open spec fn grid_cell(size: Q2, columns: int, rows: int, row: int, col: int) -> (Q2, Q2) {
    (
        ((col * size.0.0, columns * size.0.1), (row * size.1.0, rows * size.1.1)),
        (((col + 1) * size.0.0, columns * size.0.1), ((row + 1) * size.1.0, rows * size.1.1)),
    )
}

/// An atlas: the two texture references, the atlas dimensions, and the
/// ordered frame list.  Frame `i` is always `frames[i]`.
pub struct ShadedAtlas {
    /// The texture in which the sprite images are stored.
    pub albedo: TextureHandle,
    /// The texture in which the sprite normal maps are stored.
    pub normal_map: TextureHandle,
    pub size: Vec2,
    /// The areas of the atlas where each texture can be found.
    pub frames: Vec<Rect>,
}

impl ShadedAtlas {
    pub open spec fn wf(self) -> bool {
        &&& self.size.wf()
        &&& forall|i: int| 0 <= i < self.frames@.len() ==> (#[trigger] self.frames@[i]).wf()
    }

    /// An atlas with a texture but no frames yet.
    pub fn new_empty(albedo: TextureHandle, normal_map: TextureHandle, dimensions: Vec2) -> (r:
        ShadedAtlas)
        requires
            dimensions.wf(),
        ensures
            r.albedo == albedo,
            r.normal_map == normal_map,
            r.size == dimensions,
            r.frames@ == Seq::<Rect>::empty(),
            r.wf(),
    {
        let r = ShadedAtlas { albedo, normal_map, size: dimensions, frames: Vec::new() };
        proof {
            assert(r.frames@ =~= Seq::<Rect>::empty());
        }
        r
    }

    /// Splits `size` into a `columns x rows` grid of equal cells, row-major:
    /// frame `k` covers cell `(k / columns, k % columns)`, exactly.  The
    /// bounds in the precondition only keep the exact cell coordinates
    /// representable.
    pub fn from_grid(
        albedo: TextureHandle,
        normal_map: TextureHandle,
        size: Vec2,
        columns: usize,
        rows: usize,
    ) -> (r: ShadedAtlas)
        requires
            size.wf(),
            columns >= 1,
            rows >= 1,
            columns * size.x@.1 <= i64::MAX,
            columns * abs_i(size.x@.0) <= i64::MAX,
            rows * size.y@.1 <= i64::MAX,
            rows * abs_i(size.y@.0) <= i64::MAX,
        ensures
            r.albedo == albedo,
            r.normal_map == normal_map,
            r.size == size,
            r.wf(),
            r.frames@.len() == rows * columns,
            forall|k: int|
                0 <= k < rows * columns ==> {
                    let cell = grid_cell(
                        size@,
                        columns as int,
                        rows as int,
                        k / (columns as int),
                        k % (columns as int),
                    );
                    &&& q_eq((#[trigger] r.frames@[k]).min.x@, cell.0.0)
                    &&& q_eq(r.frames@[k].min.y@, cell.0.1)
                    &&& q_eq(r.frames@[k].max.x@, cell.1.0)
                    &&& q_eq(r.frames@[k].max.y@, cell.1.1)
                },
    {
        let sxn = size.x.num;
        let sxd = size.x.den;
        let syn = size.y.num;
        let syd = size.y.den;
        proof {
            lemma_grid_mul_bounds(0, columns as int, size.x@);
            lemma_grid_mul_bounds(0, rows as int, size.y@);
        }
        let cxd: i64 = (columns as i64) * sxd;
        let cyd: i64 = (rows as i64) * syd;
        let mut frames: Vec<Rect> = Vec::new();
        let mut y: usize = 0;
        while y < rows
            invariant
                0 <= y <= rows,
                columns >= 1,
                rows >= 1,
                size.wf(),
                sxn == size.x.num,
                sxd == size.x.den,
                syn == size.y.num,
                syd == size.y.den,
                cxd == columns * size.x@.1,
                cyd == rows * size.y@.1,
                columns * size.x@.1 <= i64::MAX,
                columns * abs_i(size.x@.0) <= i64::MAX,
                rows * size.y@.1 <= i64::MAX,
                rows * abs_i(size.y@.0) <= i64::MAX,
                frames@.len() == y * columns,
                forall|k: int|
                    0 <= k < frames@.len() ==> {
                        let cell = grid_cell(
                            size@,
                            columns as int,
                            rows as int,
                            k / (columns as int),
                            k % (columns as int),
                        );
                        &&& (#[trigger] frames@[k]).wf()
                        &&& q_eq(frames@[k].min.x@, cell.0.0)
                        &&& q_eq(frames@[k].min.y@, cell.0.1)
                        &&& q_eq(frames@[k].max.x@, cell.1.0)
                        &&& q_eq(frames@[k].max.y@, cell.1.1)
                    },
            decreases rows - y,
        {
            let mut x: usize = 0;
            while x < columns
                invariant
                    0 <= y < rows,
                    0 <= x <= columns,
                    columns >= 1,
                    rows >= 1,
                    size.wf(),
                    sxn == size.x.num,
                    sxd == size.x.den,
                    syn == size.y.num,
                    syd == size.y.den,
                    cxd == columns * size.x@.1,
                    cyd == rows * size.y@.1,
                    columns * size.x@.1 <= i64::MAX,
                    columns * abs_i(size.x@.0) <= i64::MAX,
                    rows * size.y@.1 <= i64::MAX,
                    rows * abs_i(size.y@.0) <= i64::MAX,
                    frames@.len() == y * columns + x,
                    forall|k: int|
                        0 <= k < frames@.len() ==> {
                            let cell = grid_cell(
                                size@,
                                columns as int,
                                rows as int,
                                k / (columns as int),
                                k % (columns as int),
                            );
                            &&& (#[trigger] frames@[k]).wf()
                            &&& q_eq(frames@[k].min.x@, cell.0.0)
                            &&& q_eq(frames@[k].min.y@, cell.0.1)
                            &&& q_eq(frames@[k].max.x@, cell.1.0)
                            &&& q_eq(frames@[k].max.y@, cell.1.1)
                        },
                decreases columns - x,
            {
                proof {
                    lemma_grid_mul_bounds(x as int, columns as int, size.x@);
                    lemma_grid_mul_bounds(y as int, rows as int, size.y@);
                }
                let minx = frac((x as i64) * sxn, cxd);
                let miny = frac((y as i64) * syn, cyd);
                let maxx = frac((x as i64 + 1) * sxn, cxd);
                let maxy = frac((y as i64 + 1) * syn, cyd);
                let ghost prev = frames@;
                frames.push(
                    Rect {
                        min: Vec2 { x: minx, y: miny },
                        max: Vec2 { x: maxx, y: maxy },
                    },
                );
                proof {
                    let c = columns as int;
                    let k = (y * columns + x) as int;
                    assert(c * (y as int) == (y as int) * c) by (nonlinear_arith);
                    lemma_div_multiples_vanish_fancy(y as int, x as int, c);
                    lemma_mod_multiples_vanish(y as int, x as int, c);
                    lemma_small_mod(x as nat, c as nat);
                    assert(k == c * (y as int) + x);
                    assert(k / c == y as int && k % c == x as int);
                }
                x += 1;
            }
            proof {
                assert(((y + 1) as int) * (columns as int) == (y as int) * (columns as int) + (
                columns as int)) by (nonlinear_arith);
            }
            y += 1;
        }
        ShadedAtlas { albedo, normal_map, size, frames }
    }

    /// Appends a frame; its index is `len() - 1` after the call, and every
    /// earlier frame keeps its index.  Inverted rectangles are rejected by
    /// precondition: a frame runs from its top-left to its bottom-right
    /// corner.
    pub fn add_frame(&mut self, rect: Rect)
        requires
            old(self).wf(),
            rect.wf(),
            q_le(rect.min.x@, rect.max.x@),
            q_le(rect.min.y@, rect.max.y@),
        ensures
            final(self).frames@ == old(self).frames@.push(rect),
            final(self).albedo == old(self).albedo,
            final(self).normal_map == old(self).normal_map,
            final(self).size == old(self).size,
            final(self).wf(),
    {
        self.frames.push(rect);
    }

    /// How many frames are in the atlas.
    pub fn len(&self) -> (r: usize)
        ensures
            r == self.frames@.len(),
    {
        self.frames.len()
    }

    pub fn is_empty(&self) -> (r: bool)
        ensures
            r == (self.frames@.len() == 0),
    {
        self.frames.len() == 0
    }

    /// The frame at `index`, which a sprite instance's `index` field selects.
    pub fn frame(&self, index: usize) -> (r: Rect)
        requires
            index < self.frames@.len(),
        ensures
            r == self.frames@[index as int],
    {
        self.frames[index]
    }
}

/// Bounds for one grid coordinate: `k * n` and `(k + 1) * n` stay within
/// `m * |n|` for `k < m`.
proof fn lemma_grid_mul_bounds(k: int, m: int, s: Q)
    by (nonlinear_arith)
    requires
        0 <= k < m,
        1 <= s.1,
        m * s.1 <= i64::MAX,
        m * abs_i(s.0) <= i64::MAX,
    ensures
        -(i64::MAX as int) <= k * s.0 <= i64::MAX,
        -(i64::MAX as int) <= (k + 1) * s.0 <= i64::MAX,
        1 <= m * s.1 <= i64::MAX,
        k * s.1 <= i64::MAX,
        m <= i64::MAX,
        k + 1 <= i64::MAX,
{
}

/// The exact rational `n / d` as a `Rat`; total because the caller keeps
/// `n` and `d` within the field range.
fn frac(n: i64, d: i64) -> (r: Rat)
    requires
        1 <= d,
        -i64::MAX <= n,
    ensures
        r.wf(),
        q_eq(r@, (n as int, d as int)),
{
    proof {
        lemma_fits_chk((n as int, d as int));
    }
    match Rat::new(n, d) {
        Some(v) => v,
        None => vstd::pervasive::unreached(),
    }
}

} // verus!
