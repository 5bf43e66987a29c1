//! Scrolling backgrounds: layers that show a viewport of a toroidal bitmap.
use vstd::prelude::*;
use crate::geom::{fits_i32, Blit, Drawable, Rect};

verus! {

/// The direction in which a layer appears to move on screen.
#[derive(Clone, Copy, Debug, PartialEq, Eq, Structural)]
pub enum ScrollDir {
    Up,
    Right,
    Down,
    Left,
}

/// One run along an axis: `len` pixels read from bitmap offset `src` and
/// written at viewport offset `dst`.
#[derive(Clone, Copy, Debug, PartialEq, Eq, Structural)]
pub struct Span {
    pub src: i32,
    pub dst: i32,
    pub len: i32,
}

pub open spec fn span(src: int, dst: int, len: int) -> Span {
    Span { src: src as i32, dst: dst as i32, len: len as i32 }
}

/// The span if it is not empty.
pub open spec fn keep(s: Span) -> Seq<Span> {
    if s.len > 0 {
        seq![s]
    } else {
        seq![]
    }
}

/// Splits the range `[pos, pos + len)` of a wrapping axis of size `dim` at the
/// bitmap's edge, dropping empty runs.
pub open spec fn axis_spans(pos: int, len: int, dim: int) -> Seq<Span> {
    if pos < 0 {
        keep(span(dim + pos, 0, -pos)) + keep(span(0, -pos, pos + len))
    } else if pos + len > dim {
        keep(span(pos, 0, dim - pos)) + keep(span(0, dim - pos, pos + len - dim))
    } else {
        keep(span(pos, 0, len))
    }
}

/// The range lies within one bitmap dimension of the axis' edges.
pub open spec fn axis_in_domain(pos: int, len: int, dim: int) -> bool {
    0 < dim && 0 <= len <= dim && -len <= pos <= dim
}

/// The arithmetic of splitting stays within `i32`.
pub open spec fn axis_fits(pos: int, len: int, dim: int) -> bool {
    0 < dim && 0 <= len && pos > i32::MIN && fits_i32(pos + len) && fits_i32(dim)
}

pub open spec fn piece(texture: usize, v: Span, h: Span) -> Blit {
    Blit {
        texture,
        src: Rect { x: h.src, y: v.src, w: h.len, h: v.len },
        dst: Rect { x: h.dst, y: v.dst, w: h.len, h: v.len },
    }
}

/// The blits of one horizontal band of the viewport.
pub open spec fn row(texture: usize, v: Span, hs: Seq<Span>) -> Seq<Blit> {
    hs.map_values(|h: Span| piece(texture, v, h))
}

/// The model of a layer.
pub ghost struct LayerView {
    pub viewport: Rect,
    pub speed: int,
    pub direction: ScrollDir,
    pub bitmap: Drawable,
}

impl LayerView {
    pub open spec fn width(self) -> int {
        self.bitmap.width as int
    }

    pub open spec fn height(self) -> int {
        self.bitmap.height as int
    }

    /// A layer whose viewport can be split without overflow.
    pub open spec fn wf(self) -> bool {
        axis_fits(self.viewport.x as int, self.viewport.w as int, self.width())
            && axis_fits(self.viewport.y as int, self.viewport.h as int, self.height())
    }

    /// The viewport lies within one bitmap dimension of the bitmap's edges.
    pub open spec fn in_domain(self) -> bool {
        axis_in_domain(self.viewport.x as int, self.viewport.w as int, self.width())
            && axis_in_domain(self.viewport.y as int, self.viewport.h as int, self.height())
    }

    pub open spec fn h_spans(self) -> Seq<Span> {
        axis_spans(self.viewport.x as int, self.viewport.w as int, self.width())
    }

    pub open spec fn v_spans(self) -> Seq<Span> {
        axis_spans(self.viewport.y as int, self.viewport.h as int, self.height())
    }

    /// The blits that draw the viewport: every non-empty pairing of a
    /// vertical run with a horizontal run, top to bottom, left to right.
    pub open spec fn blits(self) -> Seq<Blit> {
        let vs = self.v_spans();
        let hs = self.h_spans();
        let t = self.bitmap.texture;
        if vs.len() == 0 {
            seq![]
        } else if vs.len() == 1 {
            row(t, vs[0], hs)
        } else {
            row(t, vs[0], hs) + row(t, vs[1], hs)
        }
    }

    /// The viewport origin after one scroll step.
    pub open spec fn scrolled_origin(self) -> (int, int) {
        let v = self.viewport;
        let s = self.speed;
        match self.direction {
            ScrollDir::Up => {
                let y = v.y + s;
                (v.x as int, if y > self.height() { y - self.height() } else { y })
            },
            ScrollDir::Right => {
                let x = v.x - s;
                (if x + v.w < 0 { x + self.width() } else { x }, v.y as int)
            },
            ScrollDir::Down => {
                let y = v.y - s;
                (v.x as int, if y + v.h < 0 { y + self.height() } else { y })
            },
            ScrollDir::Left => {
                let x = v.x + s;
                (if x > self.width() { x - self.width() } else { x }, v.y as int)
            },
        }
    }

    /// The viewport origin after one scroll step can be stored.
    pub open spec fn can_scroll(self) -> bool {
        let (x, y) = self.scrolled_origin();
        fits_i32(x) && fits_i32(y)
    }

    /// What the layer draws: its blits, or nothing when its geometry is
    /// degenerate (an empty bitmap, a negative viewport size) or too close to
    /// the `i32` limits to be split.
    pub open spec fn drawn(self) -> Seq<Blit> {
        if self.wf() {
            self.blits()
        } else {
            seq![]
        }
    }

    /// The layer after one scroll step.
    pub open spec fn scrolled(self) -> LayerView {
        let (x, y) = self.scrolled_origin();
        LayerView { viewport: Rect { x: x as i32, y: y as i32, ..self.viewport }, ..self }
    }
}

/// Run `s` covers viewport offset `p`.
pub open spec fn span_covers(s: Span, p: int) -> bool {
    s.dst <= p < s.dst + s.len
}

pub open spec fn some_span_covers(s: Seq<Span>, p: int) -> bool {
    exists|k: int| 0 <= k < s.len() && span_covers(#[trigger] s[k], p)
}

/// On an axis within one dimension of the edges, the runs are non-empty,
/// read inside the bitmap, write inside the viewport, read the bitmap
/// position that the viewport shows modulo the bitmap's size, and cover each
/// viewport offset exactly once.
pub proof fn lemma_axis_spans(pos: int, len: int, dim: int)
    requires
        axis_in_domain(pos, len, dim),
        axis_fits(pos, len, dim),
    ensures
        axis_spans(pos, len, dim).len() <= 2,
        forall|k: int|
            0 <= k < axis_spans(pos, len, dim).len() ==> {
                let s = #[trigger] axis_spans(pos, len, dim)[k];
                &&& s.len > 0
                &&& 0 <= s.src && s.src + s.len <= dim
                &&& 0 <= s.dst && s.dst + s.len <= len
                &&& (s.src - (pos + s.dst)) % dim == 0
            },
        forall|p: int| 0 <= p < len ==> #[trigger] some_span_covers(axis_spans(pos, len, dim), p),
        forall|k1: int, k2: int, p: int|
            0 <= k1 < axis_spans(pos, len, dim).len() && 0 <= k2 < axis_spans(pos, len, dim).len()
                && #[trigger] span_covers(axis_spans(pos, len, dim)[k1], p) && #[trigger] span_covers(
                axis_spans(pos, len, dim)[k2],
                p,
            ) ==> k1 == k2,
{
    let s = axis_spans(pos, len, dim);
    assert((dim + pos - pos) % dim == 0) by {
        vstd::arithmetic::div_mod::lemma_mod_multiples_basic(1, dim);
    }
    assert(0int % dim == 0) by {
        vstd::arithmetic::div_mod::lemma_small_mod(0, dim as nat);
    }
    assert((0 - (pos + (-pos))) % dim == 0);
    assert((pos - (pos + 0)) % dim == 0);
    assert((0 - (pos + (dim - pos))) % dim == 0) by {
        vstd::arithmetic::div_mod::lemma_mod_multiples_basic(-1, dim);
    }
    assert forall|p: int| 0 <= p < len implies #[trigger] some_span_covers(s, p) by {
        if pos < 0 {
            if p < -pos {
                assert(span_covers(s[0], p));
            } else {
                assert(span_covers(s[s.len() - 1], p));
            }
        } else if pos + len > dim {
            if p < dim - pos {
                assert(span_covers(s[0], p));
            } else {
                assert(span_covers(s[s.len() - 1], p));
            }
        } else {
            assert(span_covers(s[0], p));
        }
    }
}

pub open spec fn some_blit_covers(b: Seq<Blit>, px: int, py: int) -> bool {
    exists|k: int| 0 <= k < b.len() && (#[trigger] b[k]).dst.spec_contains(px, py)
}

/// Blit `k` pairs a vertical run with a horizontal run.
proof fn lemma_blit_at(v: LayerView, k: int)
    requires
        0 <= k < v.blits().len(),
        v.v_spans().len() <= 2,
    ensures
        k < v.h_spans().len() ==> v.blits()[k] == piece(
            v.bitmap.texture,
            v.v_spans()[0],
            v.h_spans()[k],
        ),
        k >= v.h_spans().len() ==> v.v_spans().len() == 2 && v.blits()[k] == piece(
            v.bitmap.texture,
            v.v_spans()[1],
            v.h_spans()[k - v.h_spans().len()],
        ),
{
}

/// For a viewport within one bitmap dimension of the edges, the blits tile
/// the viewport-sized area at the origin with no gap and no overlap: each
/// one copies, unscaled, the part of the bitmap that the viewport shows at
/// that place, and each pixel of the area is drawn by exactly one blit.
pub proof fn lemma_blits_tile_viewport(v: LayerView)
    requires
        v.wf(),
        v.in_domain(),
    ensures
        v.blits().len() <= 4,
        forall|k: int|
            0 <= k < v.blits().len() ==> {
                let b = #[trigger] v.blits()[k];
                &&& b.texture == v.bitmap.texture
                &&& b.src.w == b.dst.w && b.dst.w > 0
                &&& b.src.h == b.dst.h && b.dst.h > 0
                &&& (Rect { x: 0, y: 0, w: v.viewport.w, h: v.viewport.h }).spec_encloses(b.dst)
                &&& (Rect { x: 0, y: 0, w: v.bitmap.width, h: v.bitmap.height }).spec_encloses(
                    b.src,
                )
                &&& (b.src.x - (v.viewport.x + b.dst.x)) % v.width() == 0
                &&& (b.src.y - (v.viewport.y + b.dst.y)) % v.height() == 0
            },
        forall|px: int, py: int|
            0 <= px < v.viewport.w && 0 <= py < v.viewport.h ==> #[trigger] some_blit_covers(
                v.blits(),
                px,
                py,
            ),
        forall|k1: int, k2: int, px: int, py: int|
            0 <= k1 < v.blits().len() && 0 <= k2 < v.blits().len()
                && #[trigger] v.blits()[k1].dst.spec_contains(px, py)
                && #[trigger] v.blits()[k2].dst.spec_contains(px, py) ==> k1 == k2,
{
    let hs = v.h_spans();
    let vs = v.v_spans();
    let b = v.blits();
    let t = v.bitmap.texture;
    lemma_axis_spans(v.viewport.x as int, v.viewport.w as int, v.width());
    lemma_axis_spans(v.viewport.y as int, v.viewport.h as int, v.height());
    assert forall|k: int| 0 <= k < b.len() implies {
        let bk = #[trigger] b[k];
        &&& bk.texture == v.bitmap.texture
        &&& bk.src.w == bk.dst.w && bk.dst.w > 0
        &&& bk.src.h == bk.dst.h && bk.dst.h > 0
        &&& (Rect { x: 0, y: 0, w: v.viewport.w, h: v.viewport.h }).spec_encloses(bk.dst)
        &&& (Rect { x: 0, y: 0, w: v.bitmap.width, h: v.bitmap.height }).spec_encloses(bk.src)
        &&& (bk.src.x - (v.viewport.x + bk.dst.x)) % v.width() == 0
        &&& (bk.src.y - (v.viewport.y + bk.dst.y)) % v.height() == 0
    } by {
        lemma_blit_at(v, k);
        if k < hs.len() {
            assert(hs[k] == axis_spans(v.viewport.x as int, v.viewport.w as int, v.width())[k]);
            assert(vs[0] == axis_spans(v.viewport.y as int, v.viewport.h as int, v.height())[0]);
        } else {
            let kh = k - hs.len();
            assert(hs[kh] == axis_spans(v.viewport.x as int, v.viewport.w as int, v.width())[kh]);
            assert(vs[1] == axis_spans(v.viewport.y as int, v.viewport.h as int, v.height())[1]);
        }
    }
    assert forall|px: int, py: int|
        0 <= px < v.viewport.w && 0 <= py < v.viewport.h implies #[trigger] some_blit_covers(
        b,
        px,
        py,
    ) by {
        assert(some_span_covers(hs, px));
        assert(some_span_covers(vs, py));
        let kh = choose|kh: int| 0 <= kh < hs.len() && span_covers(#[trigger] hs[kh], px);
        let kv = choose|kv: int| 0 <= kv < vs.len() && span_covers(#[trigger] vs[kv], py);
        let k = if kv == 0 {
            kh
        } else {
            hs.len() + kh
        };
        lemma_blit_at(v, k);
        assert(b[k].dst.spec_contains(px, py));
    }
    assert forall|k1: int, k2: int, px: int, py: int|
        0 <= k1 < b.len() && 0 <= k2 < b.len() && #[trigger] b[k1].dst.spec_contains(px, py)
            && #[trigger] b[k2].dst.spec_contains(px, py) implies k1 == k2 by {
        lemma_blit_at(v, k1);
        lemma_blit_at(v, k2);
        let (kv1, kh1) = if k1 < hs.len() {
            (0int, k1)
        } else {
            (1int, k1 - hs.len())
        };
        let (kv2, kh2) = if k2 < hs.len() {
            (0int, k2)
        } else {
            (1int, k2 - hs.len())
        };
        assert(span_covers(hs[kh1], px) && span_covers(hs[kh2], px));
        assert(span_covers(vs[kv1], py) && span_covers(vs[kv2], py));
    }
}

/// The layer after `n` scroll steps.
pub open spec fn scroll_ticks(v: LayerView, n: nat) -> LayerView
    decreases n,
{
    if n == 0 {
        v
    } else {
        scroll_ticks(v.scrolled(), (n - 1) as nat)
    }
}

/// Scrolling left keeps the viewport's left edge in `(0, width]`, moved by
/// `speed` per step modulo the width; returns how many widths were taken off.
proof fn lemma_left_ticks(v: LayerView, k: nat) -> (m: int)
    requires
        v.direction == ScrollDir::Left,
        0 < v.speed <= v.width(),
        0 < v.viewport.x <= v.width(),
        fits_i32(2 * v.width()),
    ensures
        ({
            let u = scroll_ticks(v, k);
            &&& u == (LayerView { viewport: Rect { x: u.viewport.x, ..v.viewport }, ..v })
            &&& 0 < u.viewport.x <= v.width()
            &&& u.viewport.x == v.viewport.x + k * v.speed - m * v.width()
        }),
    decreases k,
{
    if k == 0 {
        0
    } else {
        let v1 = v.scrolled();
        assert(v1 == (LayerView { viewport: Rect { x: v1.viewport.x, ..v.viewport }, ..v }));
        let m1 = lemma_left_ticks(v1, (k - 1) as nat);
        let c: int = if v.viewport.x + v.speed > v.width() {
            1
        } else {
            0
        };
        assert(v1.viewport.x == v.viewport.x + v.speed - c * v.width());
        assert(k * v.speed == v.speed + (k - 1) * v.speed) by (nonlinear_arith);
        assert(m1 * v.width() + c * v.width() == (m1 + c) * v.width()) by (nonlinear_arith);
        m1 + c
    }
}

/// Scrolling a layer left by exactly its bitmap's width, in steps of equal
/// speed, returns the viewport to its original rectangle.
pub proof fn lemma_scroll_left_round_trip(v: LayerView, n: nat)
    requires
        v.direction == ScrollDir::Left,
        0 < v.speed,
        n * v.speed == v.width(),
        0 < v.viewport.x <= v.width(),
        fits_i32(2 * v.width()),
    ensures
        scroll_ticks(v, n) == v,
{
    assert(n >= 1 && v.speed <= v.width()) by (nonlinear_arith)
        requires
            0 < v.speed,
            n * v.speed == v.width(),
            0 < v.width(),
    ;
    let m = lemma_left_ticks(v, n);
    let u = scroll_ticks(v, n);
    let w = v.width();
    assert((1 - m) * w == u.viewport.x - v.viewport.x) by (nonlinear_arith)
        requires
            u.viewport.x == v.viewport.x + n * v.speed - m * w,
            n * v.speed == w,
    ;
    assert(m == 1) by (nonlinear_arith)
        requires
            (1 - m) * w == u.viewport.x - v.viewport.x,
            0 < u.viewport.x <= w,
            0 < v.viewport.x <= w,
    ;
    assert(u.viewport == v.viewport);
}

/// Splits one axis of the viewport at the bitmap's edge.
fn split_axis(pos: i32, len: i32, dim: i32) -> (r: Vec<Span>)
    requires
        axis_fits(pos as int, len as int, dim as int),
    ensures
        r@ == axis_spans(pos as int, len as int, dim as int),
{
    let mut r: Vec<Span> = Vec::new();
    let (a, b) = if pos < 0 {
        (Span { src: dim + pos, dst: 0, len: -pos }, Span { src: 0, dst: -pos, len: pos + len })
    } else if pos as i64 + len as i64 > dim as i64 {
        (
            Span { src: pos, dst: 0, len: dim - pos },
            Span { src: 0, dst: dim - pos, len: pos + len - dim },
        )
    } else {
        (Span { src: pos, dst: 0, len }, Span { src: 0, dst: 0, len: 0 })
    };
    if a.len > 0 {
        r.push(a);
    }
    if b.len > 0 {
        r.push(b);
    }
    proof {
        assert(r@ =~= axis_spans(pos as int, len as int, dim as int));
    }
    r
}

/// Appends the blits of one horizontal band.
fn push_row(out: &mut Vec<Blit>, texture: usize, v: Span, hs: &Vec<Span>)
    ensures
        final(out)@ == old(out)@ + row(texture, v, hs@),
{
    let mut j: usize = 0;
    while j < hs.len()
        invariant
            j <= hs@.len(),
            out@ == old(out)@ + row(texture, v, hs@.subrange(0, j as int)),
        decreases hs@.len() - j,
    {
        let h = hs[j];
        out.push(
            Blit {
                texture,
                src: Rect { x: h.src, y: v.src, w: h.len, h: v.len },
                dst: Rect { x: h.dst, y: v.dst, w: h.len, h: v.len },
            },
        );
        proof {
            assert(hs@.subrange(0, j + 1) =~= hs@.subrange(0, j as int).push(h));
            assert(row(texture, v, hs@.subrange(0, j + 1)) =~= row(
                texture,
                v,
                hs@.subrange(0, j as int),
            ).push(piece(texture, v, h)));
        }
        j += 1;
    }
    proof {
        assert(hs@.subrange(0, j as int) =~= hs@);
    }
}

/// The blits of every layer, back to front.
pub open spec fn all_blits(layers: Seq<LayerView>) -> Seq<Blit>
    decreases layers.len(),
{
    if layers.len() == 0 {
        seq![]
    } else {
        all_blits(layers.drop_last()) + layers.last().drawn()
    }
}

/// An ordered stack of layers, drawn back to front in insertion order.
pub struct ScrollingBackground {
    layers: Vec<BackgroundLayer>,
}

impl View for ScrollingBackground {
    type V = Seq<LayerView>;

    closed spec fn view(&self) -> Seq<LayerView> {
        self.layers@.map_values(|l: BackgroundLayer| l@)
    }
}

impl ScrollingBackground {
    pub fn new() -> (r: ScrollingBackground)
        ensures
            r@ == Seq::<LayerView>::empty(),
    {
        let r = ScrollingBackground { layers: Vec::new() };
        proof {
            assert(r@ =~= Seq::<LayerView>::empty());
        }
        r
    }

    pub fn add_layer(&mut self, layer: BackgroundLayer)
        ensures
            final(self)@ == old(self)@.push(layer@),
    {
        self.layers.push(layer);
        proof {
            assert(self@ =~= old(self)@.push(layer@));
        }
    }

    /// The blits of all layers, back to front.
    pub fn draw(&self) -> (r: Vec<Blit>)
        ensures
            r@ == all_blits(self@),
    {
        let mut out: Vec<Blit> = Vec::new();
        let mut i: usize = 0;
        while i < self.layers.len()
            invariant
                i <= self@.len(),
                self@.len() == self.layers@.len(),
                out@ == all_blits(self@.subrange(0, i as int)),
            decreases self@.len() - i,
        {
            assert(self@[i as int] == self.layers@[i as int]@);
            let b = self.layers[i].draw();
            let ghost prev = out@;
            let mut b = b;
            out.append(&mut b);
            proof {
                let s = self@.subrange(0, i + 1);
                assert(s.drop_last() =~= self@.subrange(0, i as int));
                assert(s.last() == self.layers@[i as int]@);
            }
            i += 1;
        }
        proof {
            assert(self@.subrange(0, i as int) =~= self@);
        }
        out
    }

    /// Scrolls every layer by one step.
    pub fn update(&mut self)
        requires
            forall|i: int|
                0 <= i < old(self)@.len() ==> (#[trigger] old(self)@[i]).can_scroll(),
        ensures
            final(self)@ == old(self)@.map_values(|l: LayerView| l.scrolled()),
    {
        let mut i: usize = 0;
        while i < self.layers.len()
            invariant
                i <= self@.len(),
                self@.len() == old(self)@.len() == self.layers@.len(),
                forall|j: int| 0 <= j < i ==> self@[j] == (#[trigger] old(self)@[j]).scrolled(),
                forall|j: int| i <= j < self@.len() ==> self@[j] == #[trigger] old(self)@[j],
                forall|j: int|
                    0 <= j < old(self)@.len() ==> (#[trigger] old(self)@[j]).can_scroll(),
            decreases self@.len() - i,
        {
            assert(self@[i as int] == self.layers@[i as int]@);
            assert(old(self)@[i as int].can_scroll());
            self.layers[i].update();
            i += 1;
        }
        proof {
            assert(self@ =~= old(self)@.map_values(|l: LayerView| l.scrolled()));
        }
    }

    /// The layers, for the host to steer.
    pub fn layers(&mut self) -> (r: &mut [BackgroundLayer])
        ensures
            r@.map_values(|l: BackgroundLayer| l@) == old(self)@,
            final(self)@ == final(r)@.map_values(|l: BackgroundLayer| l@),
    {
        self.layers.as_mut_slice()
    }
}

/// One parallax layer: a viewport over a bitmap that wraps at its edges.
pub struct BackgroundLayer {
    viewport: Rect,
    speed: i32,
    direction: ScrollDir,
    bitmap: Drawable,
}

impl View for BackgroundLayer {
    type V = LayerView;

    closed spec fn view(&self) -> LayerView {
        LayerView {
            viewport: self.viewport,
            speed: self.speed as int,
            direction: self.direction,
            bitmap: self.bitmap,
        }
    }
}

impl BackgroundLayer {
    pub fn new(bitmap: Drawable, viewport: Rect, speed: i32, direction: ScrollDir) -> (r:
        BackgroundLayer)
        ensures
            r@ == (LayerView { viewport, speed: speed as int, direction, bitmap }),
    {
        BackgroundLayer { speed, direction, bitmap, viewport }
    }

    /// Advances the viewport by `speed` against the scroll direction; once it
    /// has moved fully past the bitmap's edge it is translated by one bitmap
    /// dimension so that it re-enters from the opposite side.
    pub fn update(&mut self)
        requires
            old(self)@.can_scroll(),
        ensures
            final(self)@ == old(self)@.scrolled(),
            final(self)@.viewport.w == old(self)@.viewport.w,
            final(self)@.viewport.h == old(self)@.viewport.h,
            old(self)@.in_domain() && 0 <= old(self)@.speed <= old(self)@.width() && 0
                <= old(self)@.speed <= old(self)@.height() ==> final(self)@.in_domain(),
    {
        let v = self.viewport;
        let s = self.speed as i64;
        let w = self.bitmap.width as i64;
        let h = self.bitmap.height as i64;
        let (x, y): (i64, i64) = match self.direction {
            ScrollDir::Up => {
                let y = v.y as i64 + s;
                (v.x as i64, if y > h { y - h } else { y })
            },
            ScrollDir::Right => {
                let x = v.x as i64 - s;
                (if x + (v.w as i64) < 0 { x + w } else { x }, v.y as i64)
            },
            ScrollDir::Down => {
                let y = v.y as i64 - s;
                (v.x as i64, if y + (v.h as i64) < 0 { y + h } else { y })
            },
            ScrollDir::Left => {
                let x = v.x as i64 + s;
                (if x > w { x - w } else { x }, v.y as i64)
            },
        };
        self.viewport = Rect { x: x as i32, y: y as i32, w: v.w, h: v.h };
    }

    /// The blits that draw what the viewport shows, anchored at `(0, 0)`;
    /// none when the layer's geometry is degenerate.
    pub fn draw(&self) -> (r: Vec<Blit>)
        ensures
            r@ == self@.drawn(),
    {
        if !self.is_drawable() {
            return Vec::new();
        }
        let v = self.viewport;
        let hs = split_axis(v.x, v.w, self.bitmap.width);
        let vs = split_axis(v.y, v.h, self.bitmap.height);
        let mut out: Vec<Blit> = Vec::new();
        if vs.len() >= 1 {
            push_row(&mut out, self.bitmap.texture, vs[0], &hs);
        }
        if vs.len() >= 2 {
            push_row(&mut out, self.bitmap.texture, vs[1], &hs);
        }
        proof {
            assert(out@ =~= self@.blits());
        }
        out
    }

    /// Whether the layer's geometry can be drawn: a non-empty bitmap and a
    /// viewport that can be split without overflow.
    pub fn is_drawable(&self) -> (r: bool)
        ensures
            r == self@.wf(),
    {
        let v = self.viewport;
        self.bitmap.width > 0 && self.bitmap.height > 0 && v.w >= 0 && v.h >= 0 && v.x > i32::MIN
            && v.y > i32::MIN && v.x as i64 + v.w as i64 <= i32::MAX as i64 && v.y as i64
            + v.h as i64 <= i32::MAX as i64
    }

    /// Whether one scroll step keeps the viewport origin within `i32`,
    /// which `update` needs.
    pub fn can_scroll(&self) -> (r: bool)
        ensures
            r == self@.can_scroll(),
    {
        let v = self.viewport;
        let s = self.speed as i64;
        let w = self.bitmap.width as i64;
        let h = self.bitmap.height as i64;
        let (x, y): (i64, i64) = match self.direction {
            ScrollDir::Up => {
                let y = v.y as i64 + s;
                (v.x as i64, if y > h { y - h } else { y })
            },
            ScrollDir::Right => {
                let x = v.x as i64 - s;
                (if x + (v.w as i64) < 0 { x + w } else { x }, v.y as i64)
            },
            ScrollDir::Down => {
                let y = v.y as i64 - s;
                (v.x as i64, if y + (v.h as i64) < 0 { y + h } else { y })
            },
            ScrollDir::Left => {
                let x = v.x as i64 + s;
                (if x > w { x - w } else { x }, v.y as i64)
            },
        };
        (i32::MIN as i64) <= x && x <= (i32::MAX as i64) && (i32::MIN as i64) <= y && y <= (
        i32::MAX as i64)
    }

    pub fn set_speed(&mut self, speed: i32)
        ensures
            final(self)@ == (LayerView { speed: speed as int, ..old(self)@ }),
    {
        self.speed = speed;
    }

    pub fn set_direction(&mut self, direction: ScrollDir)
        ensures
            final(self)@ == (LayerView { direction, ..old(self)@ }),
    {
        self.direction = direction;
    }

    pub fn set_viewport(&mut self, viewport: Rect)
        ensures
            final(self)@ == (LayerView { viewport, ..old(self)@ }),
    {
        self.viewport = viewport;
    }

    pub fn viewport(&self) -> (r: Rect)
        ensures
            r == self@.viewport,
    {
        self.viewport
    }

    pub fn width(&self) -> (r: i32)
        ensures
            r == self@.bitmap.width,
    {
        self.bitmap.width
    }

    pub fn height(&self) -> (r: i32)
        ensures
            r == self@.bitmap.height,
    {
        self.bitmap.height
    }
}

} // verus!
