//! Integer geometry: points, sizes, rectangles, axis-aligned transforms and
//! colors. Coordinates are stored as `i32`; arithmetic that could leave that
//! range is done in `i64` and checked.
use vstd::prelude::*;

verus! {

pub open spec fn min_int(a: int, b: int) -> int {
    if a <= b { a } else { b }
}

pub open spec fn max_int(a: int, b: int) -> int {
    if a >= b { a } else { b }
}

pub open spec fn fits_i32(v: int) -> bool {
    i32::MIN <= v <= i32::MAX
}

#[derive(Clone, Copy, Debug, PartialEq, Eq, Structural)]
pub struct Point {
    pub x: i32,
    pub y: i32,
}

#[derive(Clone, Copy, Debug, PartialEq, Eq, Structural)]
pub struct Size {
    pub width: i32,
    pub height: i32,
}

/// An axis-aligned rectangle: `origin` is its top-left corner.
#[derive(Clone, Copy, Debug, PartialEq, Eq, Structural)]
pub struct Rect {
    pub origin: Point,
    pub size: Size,
}

impl Point {
    pub fn new(x: i32, y: i32) -> (r: Point)
        ensures
            r.x == x,
            r.y == y,
    {
        Point { x, y }
    }
}

impl Size {
    pub open spec fn wf(self) -> bool {
        self.width >= 0 && self.height >= 0
    }

    pub fn new(width: i32, height: i32) -> (r: Size)
        ensures
            r.width == width,
            r.height == height,
    {
        Size { width, height }
    }
}

impl Rect {
    /// Sizes are non-negative and the far edges stay within `i32`.
    pub open spec fn wf(self) -> bool {
        &&& self.size.wf()
        &&& fits_i32(self.right())
        &&& fits_i32(self.bottom())
    }

    pub open spec fn left(self) -> int {
        self.origin.x as int
    }

    pub open spec fn top(self) -> int {
        self.origin.y as int
    }

    pub open spec fn right(self) -> int {
        self.origin.x + self.size.width
    }

    pub open spec fn bottom(self) -> int {
        self.origin.y + self.size.height
    }

    /// The rectangle with the given edges.
    pub open spec fn from_edges(left: int, top: int, right: int, bottom: int) -> Rect {
        Rect {
            origin: Point { x: left as i32, y: top as i32 },
            size: Size { width: (right - left) as i32, height: (bottom - top) as i32 },
        }
    }

    /// The common part of two rectangles, when it has a positive area.
    pub open spec fn spec_intersection(self, other: Rect) -> Option<Rect> {
        let l = max_int(self.left(), other.left());
        let t = max_int(self.top(), other.top());
        let r = min_int(self.right(), other.right());
        let b = min_int(self.bottom(), other.bottom());
        if l < r && t < b {
            Some(Rect::from_edges(l, t, r, b))
        } else {
            None
        }
    }

    pub open spec fn contains_point(self, x: int, y: int) -> bool {
        self.left() <= x < self.right() && self.top() <= y < self.bottom()
    }

    pub fn new(x: i32, y: i32, width: i32, height: i32) -> (r: Rect)
        ensures
            r.origin.x == x,
            r.origin.y == y,
            r.size.width == width,
            r.size.height == height,
    {
        Rect { origin: Point { x, y }, size: Size { width, height } }
    }

    pub fn is_empty(&self) -> (r: bool)
        ensures
            r == (self.size.width <= 0 || self.size.height <= 0),
    {
        self.size.width <= 0 || self.size.height <= 0
    }

    /// The overlap of two rectangles; `None` when they share no area.
    pub fn intersection(&self, other: &Rect) -> (r: Option<Rect>)
        requires
            self.wf(),
            other.wf(),
        ensures
            r == self.spec_intersection(*other),
            r matches Some(i) ==> i.wf(),
    {
        let sr = self.origin.x as i64 + self.size.width as i64;
        let sb = self.origin.y as i64 + self.size.height as i64;
        let or = other.origin.x as i64 + other.size.width as i64;
        let ob = other.origin.y as i64 + other.size.height as i64;
        let l: i64 = if self.origin.x >= other.origin.x { self.origin.x as i64 } else { other.origin.x as i64 };
        let t: i64 = if self.origin.y >= other.origin.y { self.origin.y as i64 } else { other.origin.y as i64 };
        let r: i64 = if sr <= or { sr } else { or };
        let b: i64 = if sb <= ob { sb } else { ob };
        if l < r && t < b {
            Some(Rect {
                origin: Point { x: l as i32, y: t as i32 },
                size: Size { width: (r - l) as i32, height: (b - t) as i32 },
            })
        } else {
            None
        }
    }
}


/// An axis-aligned affine transform: the point `(x, y)` maps to
/// `(scale_x * x + offset_x, scale_y * y + offset_y)`.
#[derive(Clone, Copy, Debug, PartialEq, Eq, Structural)]
pub struct Transform {
    pub scale_x: i32,
    pub scale_y: i32,
    pub offset_x: i32,
    pub offset_y: i32,
}

proof fn lemma_mul_add_bound(a: int, b: int, c: int)
    requires
        fits_i32(a),
        fits_i32(b),
        fits_i32(c),
    ensures
        -0x4000_0001_0000_0000 <= a * b + c <= 0x4000_0001_0000_0000,
{
    assert(-0x4000_0000_0000_0000 <= a * b <= 0x4000_0000_0000_0000) by (nonlinear_arith)
        requires
            -0x8000_0000 <= a <= 0x7fff_ffff,
            -0x8000_0000 <= b <= 0x7fff_ffff,
    ;
}

impl Transform {
    /// The transform `self` applied after `inner`, when every component
    /// fits in `i32`.
    pub open spec fn spec_compose(self, inner: Transform) -> Option<Transform> {
        let sx = self.scale_x * inner.scale_x;
        let sy = self.scale_y * inner.scale_y;
        let tx = self.scale_x * inner.offset_x + self.offset_x;
        let ty = self.scale_y * inner.offset_y + self.offset_y;
        if fits_i32(sx) && fits_i32(sy) && fits_i32(tx) && fits_i32(ty) {
            Some(Transform { scale_x: sx as i32, scale_y: sy as i32, offset_x: tx as i32, offset_y: ty as i32 })
        } else {
            None
        }
    }

    /// The image of a rectangle, when its edges fit in `i32`.
    pub open spec fn spec_map_rect(self, r: Rect) -> Option<Rect> {
        let x0 = self.scale_x * r.left() + self.offset_x;
        let x1 = self.scale_x * r.right() + self.offset_x;
        let y0 = self.scale_y * r.top() + self.offset_y;
        let y1 = self.scale_y * r.bottom() + self.offset_y;
        let left = min_int(x0, x1);
        let right = max_int(x0, x1);
        let top = min_int(y0, y1);
        let bottom = max_int(y0, y1);
        if fits_i32(left) && fits_i32(right) && fits_i32(top) && fits_i32(bottom)
            && fits_i32(right - left) && fits_i32(bottom - top) {
            Some(Rect::from_edges(left, top, right, bottom))
        } else {
            None
        }
    }

    pub open spec fn spec_translation(p: Point) -> Transform {
        Transform { scale_x: 1, scale_y: 1, offset_x: p.x, offset_y: p.y }
    }

    pub fn identity() -> (r: Transform)
        ensures
            r == (Transform { scale_x: 1, scale_y: 1, offset_x: 0, offset_y: 0 }),
    {
        Transform { scale_x: 1, scale_y: 1, offset_x: 0, offset_y: 0 }
    }

    pub fn scaling(scale_x: i32, scale_y: i32) -> (r: Transform)
        ensures
            r == (Transform { scale_x, scale_y, offset_x: 0, offset_y: 0 }),
    {
        Transform { scale_x, scale_y, offset_x: 0, offset_y: 0 }
    }

    pub fn translation(offset_x: i32, offset_y: i32) -> (r: Transform)
        ensures
            r == (Transform { scale_x: 1, scale_y: 1, offset_x, offset_y }),
    {
        Transform { scale_x: 1, scale_y: 1, offset_x, offset_y }
    }

    /// The transform `self` applied after `inner`; `None` when a component
    /// leaves the `i32` range.
    pub fn compose(&self, inner: &Transform) -> (r: Option<Transform>)
        ensures
            r == self.spec_compose(*inner),
    {
        proof {
            lemma_mul_add_bound(self.scale_x as int, inner.scale_x as int, 0);
            lemma_mul_add_bound(self.scale_y as int, inner.scale_y as int, 0);
            lemma_mul_add_bound(self.scale_x as int, inner.offset_x as int, self.offset_x as int);
            lemma_mul_add_bound(self.scale_y as int, inner.offset_y as int, self.offset_y as int);
        }
        let sx = self.scale_x as i64 * inner.scale_x as i64;
        let sy = self.scale_y as i64 * inner.scale_y as i64;
        let tx = self.scale_x as i64 * inner.offset_x as i64 + self.offset_x as i64;
        let ty = self.scale_y as i64 * inner.offset_y as i64 + self.offset_y as i64;
        if fits(sx) && fits(sy) && fits(tx) && fits(ty) {
            Some(Transform { scale_x: sx as i32, scale_y: sy as i32, offset_x: tx as i32, offset_y: ty as i32 })
        } else {
            None
        }
    }

    /// The image of a rectangle; `None` when an edge or a side leaves the
    /// `i32` range.
    pub fn map_rect(&self, r: &Rect) -> (m: Option<Rect>)
        requires
            r.wf(),
        ensures
            m == self.spec_map_rect(*r),
            m matches Some(x) ==> x.wf(),
    {
        let rr = r.origin.x as i64 + r.size.width as i64;
        let rb = r.origin.y as i64 + r.size.height as i64;
        proof {
            lemma_mul_add_bound(self.scale_x as int, r.left(), self.offset_x as int);
            lemma_mul_add_bound(self.scale_x as int, r.right(), self.offset_x as int);
            lemma_mul_add_bound(self.scale_y as int, r.top(), self.offset_y as int);
            lemma_mul_add_bound(self.scale_y as int, r.bottom(), self.offset_y as int);
        }
        let x0 = self.scale_x as i64 * r.origin.x as i64 + self.offset_x as i64;
        let x1 = self.scale_x as i64 * rr + self.offset_x as i64;
        let y0 = self.scale_y as i64 * r.origin.y as i64 + self.offset_y as i64;
        let y1 = self.scale_y as i64 * rb + self.offset_y as i64;
        let left = if x0 <= x1 { x0 } else { x1 };
        let right = if x0 >= x1 { x0 } else { x1 };
        let top = if y0 <= y1 { y0 } else { y1 };
        let bottom = if y0 >= y1 { y0 } else { y1 };
        if fits(left) && fits(right) && fits(top) && fits(bottom) && fits(right - left) && fits(bottom - top) {
            Some(Rect {
                origin: Point { x: left as i32, y: top as i32 },
                size: Size { width: (right - left) as i32, height: (bottom - top) as i32 },
            })
        } else {
            None
        }
    }
}

fn fits(v: i64) -> (r: bool)
    ensures
        r == fits_i32(v as int),
{
    i32::MIN as i64 <= v && v <= i32::MAX as i64
}

/// A color with 8-bit channels.
#[derive(Clone, Copy, Debug, PartialEq, Eq, Structural)]
pub struct Color {
    pub r: u8,
    pub g: u8,
    pub b: u8,
    pub a: u8,
}

} // verus!
