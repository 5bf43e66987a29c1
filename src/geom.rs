//! Integer geometry: points, axis-aligned rectangles and blit commands.
use vstd::prelude::*;

verus! {

/// True when `v` can be stored in an `i32`.
pub open spec fn fits_i32(v: int) -> bool {
    i32::MIN <= v <= i32::MAX
}

/// A 2D point or vector in pixels.
#[derive(Clone, Copy, Debug, PartialEq, Eq, Structural)]
pub struct Point {
    pub x: i32,
    pub y: i32,
}

impl Point {
    pub fn new(x: i32, y: i32) -> (r: Point)
        ensures
            r == (Point { x, y }),
    {
        Point { x, y }
    }
}

/// An axis-aligned rectangle: origin `(x, y)` and size `(w, h)`.
#[derive(Clone, Copy, Debug, PartialEq, Eq, Structural)]
pub struct Rect {
    pub x: i32,
    pub y: i32,
    pub w: i32,
    pub h: i32,
}

impl Rect {
    /// A rectangle with a non-negative size whose far edges are representable.
    pub open spec fn wf(self) -> bool {
        self.w >= 0 && self.h >= 0 && fits_i32(self.x + self.w) && fits_i32(self.y + self.h)
    }

    pub open spec fn spec_right(self) -> int {
        self.x + self.w
    }

    pub open spec fn spec_bottom(self) -> int {
        self.y + self.h
    }

    /// Half-open containment of a point: `[x, right) × [y, bottom)`.
    pub open spec fn spec_contains(self, px: int, py: int) -> bool {
        self.x <= px < self.spec_right() && self.y <= py < self.spec_bottom()
    }

    /// `inner` lies within `self` (edges may touch).
    pub open spec fn spec_encloses(self, inner: Rect) -> bool {
        self.x <= inner.x && inner.spec_right() <= self.spec_right() && self.y <= inner.y
            && inner.spec_bottom() <= self.spec_bottom()
    }

    /// `inner` lies within `self` with a positive margin on every side.
    pub open spec fn spec_strictly_encloses(self, inner: Rect) -> bool {
        self.x < inner.x && inner.spec_right() < self.spec_right() && self.y < inner.y
            && inner.spec_bottom() < self.spec_bottom()
    }

    pub fn new(x: i32, y: i32, w: i32, h: i32) -> (r: Rect)
        ensures
            r == (Rect { x, y, w, h }),
    {
        Rect { x, y, w, h }
    }

    pub fn left(&self) -> (r: i32)
        ensures
            r == self.x,
    {
        self.x
    }

    pub fn top(&self) -> (r: i32)
        ensures
            r == self.y,
    {
        self.y
    }

    pub fn right(&self) -> (r: i32)
        requires
            fits_i32(self.x + self.w),
        ensures
            r == self.spec_right(),
    {
        self.x + self.w
    }

    pub fn bottom(&self) -> (r: i32)
        requires
            fits_i32(self.y + self.h),
        ensures
            r == self.spec_bottom(),
    {
        self.y + self.h
    }

    /// Whether the point lies inside, left and top edges included,
    /// right and bottom edges excluded.
    pub fn contains(&self, px: i32, py: i32) -> (r: bool)
        ensures
            r == self.spec_contains(px as int, py as int),
    {
        let right = self.x as i64 + self.w as i64;
        let bottom = self.y as i64 + self.h as i64;
        self.x <= px && (px as i64) < right && self.y <= py && (py as i64) < bottom
    }

    /// The same rectangle with its origin moved to `(x, y)`.
    pub fn moved_to(&self, x: i32, y: i32) -> (r: Rect)
        ensures
            r == (Rect { x, y, w: self.w, h: self.h }),
    {
        Rect { x, y, w: self.w, h: self.h }
    }
}

/// Inclusive-edge overlap test: touching edges count as overlapping.
pub open spec fn spec_intersects(a: Rect, b: Rect) -> bool {
    a.x <= b.spec_right() && b.x <= a.spec_right() && a.y <= b.spec_bottom() && b.y
        <= a.spec_bottom()
}

/// Whether two rectangles overlap, touching edges included.
pub fn intersects(a: &Rect, b: &Rect) -> (r: bool)
    ensures
        r == spec_intersects(*a, *b),
{
    let ar = a.x as i64 + a.w as i64;
    let ab = a.y as i64 + a.h as i64;
    let br = b.x as i64 + b.w as i64;
    let bb = b.y as i64 + b.h as i64;
    (a.x as i64) <= br && (b.x as i64) <= ar && (a.y as i64) <= bb && (b.y as i64) <= ab
}

/// Overlap is symmetric.
pub proof fn lemma_intersects_symmetric(a: Rect, b: Rect)
    ensures
        spec_intersects(a, b) == spec_intersects(b, a),
{
}

pub open spec fn spec_inflate(r: Rect, dx: int, dy: int) -> Rect {
    Rect {
        x: (r.x - dx) as i32,
        y: (r.y - dy) as i32,
        w: (r.w + dx + dx) as i32,
        h: (r.h + dy + dy) as i32,
    }
}

pub open spec fn inflate_fits(r: Rect, dx: int, dy: int) -> bool {
    fits_i32(r.x - dx) && fits_i32(r.y - dy) && fits_i32(r.w + dx + dx) && fits_i32(r.h + dy + dy)
}

/// Grows the rectangle by `dx` on the left and right and by `dy` on the top
/// and bottom; negative amounts shrink it.
pub fn inflate(rect: &Rect, dx: i32, dy: i32) -> (r: Rect)
    requires
        inflate_fits(*rect, dx as int, dy as int),
    ensures
        r == spec_inflate(*rect, dx as int, dy as int),
        r.x == rect.x - dx,
        r.y == rect.y - dy,
        r.w == rect.w + 2 * dx,
        r.h == rect.h + 2 * dy,
{
    Rect { x: rect.x - dx, y: rect.y - dy, w: rect.w + dx + dx, h: rect.h + dy + dy }
}

/// The hit-box margin for a side of length `len`: a twelfth of it, rounded
/// up, for sides of two pixels or more; none for shorter sides.
pub open spec fn margin(len: int) -> int {
    if len >= 2 {
        (len - 1) / 12 + 1
    } else {
        0
    }
}

/// The hit-box of a rectangle: shrunk by `margin(w)` on the left and right
/// and by `margin(h)` on the top and bottom.
pub open spec fn collision_of(p: Rect) -> Rect {
    spec_inflate(p, -margin(p.w as int), -margin(p.h as int))
}

fn margin_of(len: i32) -> (r: i32)
    requires
        len >= 0,
    ensures
        r == margin(len as int),
        0 <= 2 * r <= len,
{
    if len >= 2 {
        (len - 1) / 12 + 1
    } else {
        0
    }
}

/// Computes the hit-box of a well-formed rectangle.
pub fn collision_rect(p: &Rect) -> (r: Rect)
    requires
        p.wf(),
    ensures
        r == collision_of(*p),
        r.wf(),
        p.spec_encloses(r),
{
    let x_shrink: i32 = -margin_of(p.w);
    let y_shrink: i32 = -margin_of(p.h);
    inflate(p, x_shrink, y_shrink)
}

/// The hit-box lies within the rectangle it is derived from, and strictly
/// inside it once the rectangle is at least two pixels wide and high; a
/// side shorter than that gets no margin.
pub proof fn lemma_collision_inside(p: Rect)
    requires
        p.wf(),
    ensures
        collision_of(p).wf(),
        p.spec_encloses(collision_of(p)),
        collision_of(p).x == p.x + margin(p.w as int),
        collision_of(p).y == p.y + margin(p.h as int),
        collision_of(p).spec_right() == p.spec_right() - margin(p.w as int),
        collision_of(p).spec_bottom() == p.spec_bottom() - margin(p.h as int),
        p.w >= 2 && p.h >= 2 ==> p.spec_strictly_encloses(collision_of(p)),
        p.w < 2 ==> collision_of(p).x == p.x && collision_of(p).w == p.w,
        p.h < 2 ==> collision_of(p).y == p.y && collision_of(p).h == p.h,
{
    lemma_margin_bounds(p.w as int);
    lemma_margin_bounds(p.h as int);
}

proof fn lemma_margin_bounds(len: int)
    requires
        0 <= len,
    ensures
        0 <= 2 * margin(len) <= len,
        len >= 2 ==> margin(len) >= 1,
{
}

/// One drawing operation: copy the region `src` of texture `texture` onto
/// the screen region `dst`, stretched to `dst`'s size.
#[derive(Clone, Copy, Debug, PartialEq, Eq, Structural)]
pub struct Blit {
    pub texture: usize,
    pub src: Rect,
    pub dst: Rect,
}

/// A width and a height.
#[derive(Clone, Copy, Debug, PartialEq, Eq)]
pub struct Size<T> {
    pub width: T,
    pub height: T,
}

impl<T> Size<T> {
    pub fn new(width: T, height: T) -> (r: Size<T>)
        ensures
            r.width == width,
            r.height == height,
    {
        Size { width, height }
    }
}

/// A drawable image known to the host by a texture handle, with its size in
/// pixels.
#[derive(Clone, Copy, Debug, PartialEq, Eq, Structural)]
pub struct Drawable {
    pub texture: usize,
    pub width: i32,
    pub height: i32,
}

impl Drawable {
    pub open spec fn wf(self) -> bool {
        self.width >= 0 && self.height >= 0
    }

    pub fn new(texture: usize, width: i32, height: i32) -> (r: Drawable)
        ensures
            r == (Drawable { texture, width, height }),
    {
        Drawable { texture, width, height }
    }
}

} // verus!
