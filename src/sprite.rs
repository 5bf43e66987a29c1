//! Sprites: moving, animated entities with a bounds policy and a hit-box.
use vstd::prelude::*;
use crate::animation::{Animation, AnimationView};
use crate::geom::{collision_of, collision_rect, fits_i32, intersects, spec_intersects, Blit, Drawable, Point, Rect};

verus! {

/// What a sprite's update asks of the engine.
#[derive(Clone, Copy, Debug, PartialEq, Eq, Structural)]
pub enum SpriteAction {
    /// Nothing to do.
    Continue,
    Kill,
    AddSprite,
}

/// What happens when a sprite's next position leaves its bounds.
#[derive(Clone, Copy, Debug, PartialEq, Eq, Structural)]
pub enum BoundsAction {
    /// Clamp into the bounds and stop.
    Stop,
    /// Reappear just past the opposite edge.
    Wrap,
    /// Clamp to the edge and reverse the velocity on that axis.
    Bounce,
    /// Die once fully outside.
    Die,
    /// No constraint.
    Unbounded,
}

/// Wrap on one axis: once fully past one edge, move just past the other.
pub open spec fn wrap_axis(p: int, size: int, lo: int, hi: int) -> int {
    if p + size < lo {
        hi
    } else if p > hi {
        lo - size
    } else {
        p
    }
}

/// Whether bouncing on one axis hits an edge.
pub open spec fn bounces(p: int, size: int, lo: int, hi: int) -> bool {
    p < lo || p + size > hi
}

/// Bounce on one axis: the position, clamped to the edge that was crossed.
pub open spec fn bounce_pos(p: int, size: int, lo: int, hi: int) -> int {
    if p < lo {
        lo
    } else if p + size > hi {
        hi - size
    } else {
        p
    }
}

/// Whether the sprite is fully outside on one axis.
pub open spec fn exits(p: int, size: int, lo: int, hi: int) -> bool {
    p + size < lo || p > hi
}

/// Whether the sprite sticks out of `[lo, hi]` on one axis.
pub open spec fn sticks_out(p: int, size: int, lo: int, hi: int) -> bool {
    p < lo || p > hi - size
}

/// Clamp on one axis into `[lo, hi - size]`, the low edge winning.
pub open spec fn clamp_axis(p: int, size: int, lo: int, hi: int) -> int {
    if p > hi - size {
        if hi - size < lo {
            lo
        } else {
            hi - size
        }
    } else if p < lo {
        lo
    } else {
        p
    }
}

/// The outcome of one tick of motion.
pub ghost struct Motion {
    pub x: int,
    pub y: int,
    pub vx: int,
    pub vy: int,
    pub kill: bool,
}

/// One tick of motion of a sprite at `pos` moving by `vel` under `policy`
/// within `bounds`.
pub open spec fn motion(pos: Rect, vel: Point, bounds: Rect, policy: BoundsAction) -> Motion {
    let nx = pos.x + vel.x;
    let ny = pos.y + vel.y;
    let w = pos.w as int;
    let h = pos.h as int;
    let l = bounds.x as int;
    let t = bounds.y as int;
    let r = bounds.spec_right();
    let b = bounds.spec_bottom();
    match policy {
        BoundsAction::Wrap => Motion {
            x: wrap_axis(nx, w, l, r),
            y: wrap_axis(ny, h, t, b),
            vx: vel.x as int,
            vy: vel.y as int,
            kill: false,
        },
        BoundsAction::Bounce => Motion {
            x: bounce_pos(nx, w, l, r),
            y: bounce_pos(ny, h, t, b),
            vx: if bounces(nx, w, l, r) { -vel.x } else { vel.x as int },
            vy: if bounces(ny, h, t, b) { -vel.y } else { vel.y as int },
            kill: false,
        },
        BoundsAction::Die => Motion {
            x: nx,
            y: ny,
            vx: vel.x as int,
            vy: vel.y as int,
            kill: exits(nx, w, l, r) || exits(ny, h, t, b),
        },
        BoundsAction::Stop => {
            let out = sticks_out(nx, w, l, r) || sticks_out(ny, h, t, b);
            Motion {
                x: if sticks_out(nx, w, l, r) { clamp_axis(nx, w, l, r) } else { nx },
                y: if sticks_out(ny, h, t, b) { clamp_axis(ny, h, t, b) } else { ny },
                vx: if out { 0 } else { vel.x as int },
                vy: if out { 0 } else { vel.y as int },
                kill: false,
            }
        },
        BoundsAction::Unbounded => Motion {
            x: nx,
            y: ny,
            vx: vel.x as int,
            vy: vel.y as int,
            kill: false,
        },
    }
}

/// `v` moved into `[lo, hi]`.
pub open spec fn clamp_int(v: int, lo: int, hi: int) -> int {
    if v < lo {
        lo
    } else if v > hi {
        hi
    } else {
        v
    }
}

fn clamp_i64(v: i64, lo: i64, hi: i64) -> (r: i64)
    requires
        lo <= hi,
    ensures
        r == clamp_int(v as int, lo as int, hi as int),
{
    if v < lo {
        lo
    } else if v > hi {
        hi
    } else {
        v
    }
}

/// The moved sprite's position and velocity can be stored.
pub open spec fn motion_fits(m: Motion, pos: Rect) -> bool {
    fits_i32(m.x) && fits_i32(m.y) && fits_i32(m.x + pos.w) && fits_i32(m.y + pos.h) && fits_i32(
        m.vx,
    ) && fits_i32(m.vy)
}

/// Computes `motion` in 64-bit arithmetic.
fn step_motion(pos: Rect, vel: Point, bounds: Rect, policy: BoundsAction) -> (r: (
    i64,
    i64,
    i64,
    i64,
    bool,
))
    ensures
        r.0 == motion(pos, vel, bounds, policy).x,
        r.1 == motion(pos, vel, bounds, policy).y,
        r.2 == motion(pos, vel, bounds, policy).vx,
        r.3 == motion(pos, vel, bounds, policy).vy,
        r.4 == motion(pos, vel, bounds, policy).kill,
{
    let nx = pos.x as i64 + vel.x as i64;
    let ny = pos.y as i64 + vel.y as i64;
    let w = pos.w as i64;
    let h = pos.h as i64;
    let l = bounds.x as i64;
    let t = bounds.y as i64;
    let r = bounds.x as i64 + bounds.w as i64;
    let b = bounds.y as i64 + bounds.h as i64;
    let vx = vel.x as i64;
    let vy = vel.y as i64;
    match policy {
        BoundsAction::Wrap => {
            let x = if nx + w < l {
                r
            } else if nx > r {
                l - w
            } else {
                nx
            };
            let y = if ny + h < t {
                b
            } else if ny > b {
                t - h
            } else {
                ny
            };
            (x, y, vx, vy, false)
        },
        BoundsAction::Bounce => {
            let (x, nvx) = if nx < l {
                (l, -vx)
            } else if nx + w > r {
                (r - w, -vx)
            } else {
                (nx, vx)
            };
            let (y, nvy) = if ny < t {
                (t, -vy)
            } else if ny + h > b {
                (b - h, -vy)
            } else {
                (ny, vy)
            };
            (x, y, nvx, nvy, false)
        },
        BoundsAction::Die => {
            let kill = nx + w < l || nx > r || ny + h < t || ny > b;
            (nx, ny, vx, vy, kill)
        },
        BoundsAction::Stop => {
            let out_x = nx < l || nx > r - w;
            let out_y = ny < t || ny > b - h;
            let x = if out_x {
                if nx > r - w {
                    if r - w < l {
                        l
                    } else {
                        r - w
                    }
                } else {
                    l
                }
            } else {
                nx
            };
            let y = if out_y {
                if ny > b - h {
                    if b - h < t {
                        t
                    } else {
                        b - h
                    }
                } else {
                    t
                }
            } else {
                ny
            };
            if out_x || out_y {
                (x, y, 0, 0, false)
            } else {
                (x, y, vx, vy, false)
            }
        },
        BoundsAction::Unbounded => (nx, ny, vx, vy, false),
    }
}

/// The model of a resource.
pub ghost enum ResourceView {
    Static(Drawable),
    Animation(AnimationView),
}

impl ResourceView {
    pub open spec fn width(self) -> int {
        match self {
            ResourceView::Static(d) => d.width as int,
            ResourceView::Animation(a) => a.frame_width(),
        }
    }

    pub open spec fn height(self) -> int {
        match self {
            ResourceView::Static(d) => d.height as int,
            ResourceView::Animation(a) => a.frame_height(),
        }
    }

    /// Sizes are not negative.
    pub open spec fn wf(self) -> bool {
        self.width() >= 0 && self.height() >= 0
    }

    /// The resource after a tick at `now`.
    pub open spec fn ticked(self, now: u64) -> ResourceView {
        match self {
            ResourceView::Static(d) => self,
            ResourceView::Animation(a) => ResourceView::Animation(a.ticked(now)),
        }
    }

    /// A non-repeating animation that has finished its cycle.
    pub open spec fn finished(self) -> bool {
        match self {
            ResourceView::Static(d) => false,
            ResourceView::Animation(a) => !a.repeat && a.is_end(),
        }
    }
}

/// What a sprite shows: a still image or an animation.
#[derive(Debug)]
pub enum Resource {
    Static(Drawable),
    Animation(Animation),
}

impl View for Resource {
    type V = ResourceView;

    open spec fn view(&self) -> ResourceView {
        match self {
            Resource::Static(d) => ResourceView::Static(*d),
            Resource::Animation(a) => ResourceView::Animation(a@),
        }
    }
}

impl Resource {
    pub fn height(&self) -> (r: i32)
        ensures
            r == self@.height(),
    {
        match self {
            Resource::Animation(anim) => anim.frame_height(),
            Resource::Static(image) => image.height,
        }
    }

    pub fn width(&self) -> (r: i32)
        ensures
            r == self@.width(),
    {
        match self {
            Resource::Animation(anim) => anim.frame_width(),
            Resource::Static(image) => image.width,
        }
    }

    /// The animation, if the resource is one.
    pub fn amination(&self) -> (r: Option<&Animation>)
        ensures
            r matches Some(a) <==> self is Animation,
            r matches Some(a) ==> self@ == ResourceView::Animation(a@),
    {
        match self {
            Resource::Animation(anim) => Some(anim),
            Resource::Static(_) => None,
        }
    }
}

impl Resource {
    /// The animation, if the resource is one, for changing.
    pub fn amination_mut(&mut self) -> (r: Option<&mut Animation>)
        ensures
            r is Some <==> *old(self) is Animation,
            r matches Some(a) ==> old(self)@ == ResourceView::Animation(a@)
                && final(self)@ == ResourceView::Animation(final(a)@),
            *old(self) is Static ==> final(self)@ == old(self)@,
    {
        match self {
            Resource::Animation(anim) => Some(anim),
            Resource::Static(_) => None,
        }
    }
}

/// A position together with the hit-box derived from it.
#[derive(Clone, Copy, Debug)]
pub struct Placement {
    position: Rect,
    collision: Rect,
}

impl Placement {
    #[verifier::type_invariant]
    spec fn inv(self) -> bool {
        self.position.wf() && self.collision == collision_of(self.position)
    }

    pub closed spec fn position(self) -> Rect {
        self.position
    }

    pub closed spec fn collision(self) -> Rect {
        self.collision
    }

    /// A placement at `position`.
    pub fn at(position: Rect) -> (r: Placement)
        requires
            position.wf(),
        ensures
            r.position() == position,
            r.collision() == collision_of(position),
    {
        Placement { position, collision: collision_rect(&position) }
    }

    pub fn get_position(&self) -> (r: Rect)
        ensures
            r == self.position(),
            r.wf(),
            self.collision() == collision_of(r),
    {
        proof {
            use_type_invariant(self);
        }
        self.position
    }

    pub fn get_collision(&self) -> (r: Rect)
        ensures
            r == self.collision(),
    {
        self.collision
    }
}

pub open spec fn opt_view(o: Option<String>) -> Option<Seq<char>> {
    match o {
        Some(s) => Some(s@),
        None => None,
    }
}

/// The model of a sprite.
pub ghost struct SpriteView<E> {
    pub id: Seq<char>,
    pub name: Seq<char>,
    pub kind_name: Seq<char>,
    pub score: int,
    pub lives: int,
    pub parent: Option<Seq<char>>,
    pub killer: Option<Seq<char>>,
    pub rel: Option<Seq<char>>,
    pub rel2: Option<Seq<char>>,
    pub rel3: Option<Seq<char>>,
    pub ext: Option<E>,
    pub resource: ResourceView,
    pub position: Rect,
    pub collision: Rect,
    pub bounds: Rect,
    pub velocity: Point,
    pub z_order: int,
    pub bounds_action: BoundsAction,
    pub hidden: bool,
    pub dying: bool,
}

impl<E> SpriteView<E> {
    /// This tick's motion.
    pub open spec fn motion(self) -> Motion {
        motion(self.position, self.velocity, self.bounds, self.bounds_action)
    }

    /// The motion is refused: the `Die` policy kills the sprite.
    pub open spec fn blocked(self) -> bool {
        self.motion().kill
    }

    /// What an update at `now` reports.
    pub open spec fn step_action(self, now: u64) -> SpriteAction {
        if self.dying || self.blocked() {
            SpriteAction::Kill
        } else {
            SpriteAction::Continue
        }
    }

    /// The sprite placed at `p`, hit-box re-derived.
    pub open spec fn placed(self, p: Rect) -> SpriteView<E> {
        SpriteView { position: p, collision: collision_of(p), ..self }
    }

    /// The sprite after an update at `now`: a dying sprite is left alone;
    /// otherwise its animation ticks (a finished one-shot animation marks
    /// the sprite dying) and, unless the motion is refused, it moves; a
    /// place or velocity beyond the `i32` range saturates at its edge.
    pub open spec fn stepped(self, now: u64) -> SpriteView<E> {
        if self.dying {
            self
        } else {
            let resource = self.resource.ticked(now);
            let ticked = SpriteView { resource, dying: resource.finished(), ..self };
            if self.blocked() {
                ticked
            } else {
                let m = self.motion();
                SpriteView {
                    velocity: Point {
                        x: clamp_int(m.vx, i32::MIN as int, i32::MAX as int) as i32,
                        y: clamp_int(m.vy, i32::MIN as int, i32::MAX as int) as i32,
                    },
                    ..ticked.placed(
                        Rect {
                            x: clamp_int(m.x, i32::MIN as int, i32::MAX - self.position.w) as i32,
                            y: clamp_int(m.y, i32::MIN as int, i32::MAX - self.position.h) as i32,
                            ..self.position
                        },
                    )
                }
            }
        }
    }

    /// Where the sprite is drawn: at its position, at its resource's size.
    pub open spec fn dest(self) -> Rect {
        Rect {
            x: self.position.x,
            y: self.position.y,
            w: self.resource.width() as i32,
            h: self.resource.height() as i32,
        }
    }

    /// The blit that draws the sprite, if it is shown.
    pub open spec fn drawn(self) -> Option<Blit> {
        if self.hidden {
            None
        } else {
            match self.resource {
                ResourceView::Static(d) => Some(
                    Blit {
                        texture: d.texture,
                        src: Rect { x: 0, y: 0, w: d.width, h: d.height },
                        dst: self.dest(),
                    },
                ),
                ResourceView::Animation(a) => if a.frames.len() == 0 {
                    None
                } else {
                    Some(
                        Blit {
                            texture: a.image.texture,
                            src: a.frames[a.shown_frame()],
                            dst: self.dest(),
                        },
                    )
                },
            }
        }
    }
}

pub open spec fn abs(v: int) -> int {
    if v < 0 {
        -v
    } else {
        v
    }
}

/// Under `Wrap`, after every tick the sprite touches or overlaps its bounds
/// on each axis, so it is never farther out than just past an edge, and its
/// velocity is unchanged; a sprite whose move takes it fully past one edge
/// re-enters just past the opposite edge.
pub proof fn lemma_wrap_stays_near<E>(s: SpriteView<E>, now: u64)
    requires
        s.bounds_action == BoundsAction::Wrap,
        s.position.wf(),
        s.bounds.wf(),
        !s.dying,
        !s.blocked(),
        motion_fits(s.motion(), s.position),
    ensures
        ({
            let t = s.stepped(now);
            let nx = s.position.x + s.velocity.x;
            let ny = s.position.y + s.velocity.y;
            &&& s.step_action(now) == SpriteAction::Continue
            &&& s.bounds.x - s.position.w <= t.position.x <= s.bounds.spec_right()
            &&& s.bounds.y - s.position.h <= t.position.y <= s.bounds.spec_bottom()
            &&& t.velocity == s.velocity
            &&& nx + s.position.w < s.bounds.x ==> t.position.x == s.bounds.spec_right()
            &&& nx > s.bounds.spec_right() ==> t.position.x == s.bounds.x - s.position.w
            &&& ny + s.position.h < s.bounds.y ==> t.position.y == s.bounds.spec_bottom()
            &&& ny > s.bounds.spec_bottom() ==> t.position.y == s.bounds.y - s.position.h
        }),
{
}

/// Under `Bounce`, a tick keeps the velocity's magnitude on each axis; its
/// sign flips exactly on an axis where an edge was crossed, and there the
/// sprite is clamped to that edge.
pub proof fn lemma_bounce_keeps_speed<E>(s: SpriteView<E>, now: u64)
    requires
        s.bounds_action == BoundsAction::Bounce,
        !s.dying,
        !s.blocked(),
        motion_fits(s.motion(), s.position),
    ensures
        ({
            let t = s.stepped(now);
            let nx = s.position.x + s.velocity.x;
            let ny = s.position.y + s.velocity.y;
            let r = s.bounds.spec_right();
            let b = s.bounds.spec_bottom();
            &&& abs(t.velocity.x as int) == abs(s.velocity.x as int)
            &&& abs(t.velocity.y as int) == abs(s.velocity.y as int)
            &&& t.velocity.x == if bounces(nx, s.position.w as int, s.bounds.x as int, r) {
                -s.velocity.x
            } else {
                s.velocity.x as int
            }
            &&& t.velocity.y == if bounces(ny, s.position.h as int, s.bounds.y as int, b) {
                -s.velocity.y
            } else {
                s.velocity.y as int
            }
            &&& nx < s.bounds.x ==> t.position.x == s.bounds.x
            &&& s.bounds.x <= nx && nx + s.position.w > r ==> t.position.x == r - s.position.w
            &&& ny < s.bounds.y ==> t.position.y == s.bounds.y
            &&& s.bounds.y <= ny && ny + s.position.h > b ==> t.position.y == b - s.position.h
        }),
{
}

/// Under `Stop`, a tick that clamps the sprite zeroes its velocity, and the
/// tick after that leaves its position unchanged and its velocity zero.
pub proof fn lemma_stop_settles<E>(s: SpriteView<E>, now: u64, later: u64)
    requires
        s.bounds_action == BoundsAction::Stop,
        s.position.wf(),
        !s.dying,
        !s.blocked(),
        motion_fits(s.motion(), s.position),
        sticks_out(
            s.position.x + s.velocity.x,
            s.position.w as int,
            s.bounds.x as int,
            s.bounds.spec_right(),
        ) || sticks_out(
            s.position.y + s.velocity.y,
            s.position.h as int,
            s.bounds.y as int,
            s.bounds.spec_bottom(),
        ),
    ensures
        s.stepped(now).velocity == (Point { x: 0, y: 0 }),
        s.stepped(now).stepped(later).position == s.stepped(now).position,
        s.stepped(now).stepped(later).velocity == (Point { x: 0, y: 0 }),
{
    let t = s.stepped(now);
    assert(!t.blocked());
}

/// Under `Die`, a tick reports `Kill` exactly when the moved sprite would be
/// fully outside its bounds on some axis, and then it does not move.
pub proof fn lemma_die_on_exit<E>(s: SpriteView<E>, now: u64)
    requires
        s.bounds_action == BoundsAction::Die,
        !s.dying,
        motion_fits(s.motion(), s.position),
    ensures
        ({
            let nx = s.position.x + s.velocity.x;
            let ny = s.position.y + s.velocity.y;
            let gone = exits(nx, s.position.w as int, s.bounds.x as int, s.bounds.spec_right())
                || exits(ny, s.position.h as int, s.bounds.y as int, s.bounds.spec_bottom());
            &&& (s.step_action(now) == SpriteAction::Kill) == gone
            &&& gone ==> s.stepped(now).position == s.position
            &&& !gone ==> s.stepped(now).position == Rect { x: nx as i32, y: ny as i32, ..s.position }
        }),
{
}

/// Behaviour that a game attaches to a sprite, run after each update.
pub trait SpriteExt: Sized {
    /// A new sprite to add when the update asked for one; none by default.
    fn add_sprite(&self, sprite: &Sprite<Self>) -> Option<Sprite<Self>> {
        None
    }

    /// Reacts to a tick; may turn `Continue` into `AddSprite`. A `Kill`
    /// stays a `Kill` whatever this returns.
    fn update(&mut self, sprite: &mut Sprite<Self>, action: SpriteAction) -> SpriteAction;
}

/// No behaviour: actions pass through unchanged.
#[derive(Clone, Copy, Debug, PartialEq, Eq, Structural)]
pub struct NoExt;

impl SpriteExt for NoExt {
    fn update(&mut self, _sprite: &mut Sprite<NoExt>, action: SpriteAction) -> (r: SpriteAction)
        ensures
            r == action,
    {
        action
    }
}

/// Relies on `uuid::Uuid::new_v4` and uuid's `Display`, which writes the
/// hyphenated form of 36 characters.
#[verifier::external_body]
fn fresh_id() -> (r: String)
    ensures
        r@.len() == 36,
{
    uuid::Uuid::new_v4().to_string()
}

/// One simulated entity.
pub struct Sprite<E> {
    id: String,
    name: String,
    kind_name: String,
    score: i32,
    lives: i32,
    parent_id: Option<String>,
    killer_id: Option<String>,
    rel_id: Option<String>,
    rel_id2: Option<String>,
    rel_id3: Option<String>,
    sprite_ext: Option<E>,
    resource: Resource,
    place: Placement,
    bounds: Rect,
    velocity: Point,
    z_order: i32,
    bounds_action: BoundsAction,
    hidden: bool,
    dying: bool,
}

impl<E> View for Sprite<E> {
    type V = SpriteView<E>;

    closed spec fn view(&self) -> SpriteView<E> {
        SpriteView {
            id: self.id@,
            name: self.name@,
            kind_name: self.kind_name@,
            score: self.score as int,
            lives: self.lives as int,
            parent: opt_view(self.parent_id),
            killer: opt_view(self.killer_id),
            rel: opt_view(self.rel_id),
            rel2: opt_view(self.rel_id2),
            rel3: opt_view(self.rel_id3),
            ext: self.sprite_ext,
            resource: self.resource@,
            position: self.place.position(),
            collision: self.place.collision(),
            bounds: self.bounds,
            velocity: self.velocity,
            z_order: self.z_order as int,
            bounds_action: self.bounds_action,
            hidden: self.hidden,
            dying: self.dying,
        }
    }
}

impl<E> Sprite<E> {
    /// The sprite's hit-box is derived from its position.
    pub fn check_placement(&self)
        ensures
            self@.position.wf(),
            self@.collision == collision_of(self@.position),
    {
        proof {
            use_type_invariant(&self.place);
        }
    }

    /// A new sprite with a fresh id, at `position`, sized by its resource.
    pub fn new(
        name: String,
        resource: Resource,
        position: Point,
        velocity: Point,
        z_order: i32,
        bounds: Rect,
        bounds_action: BoundsAction,
    ) -> (r: Sprite<E>)
        requires
            resource@.wf(),
            fits_i32(position.x + resource@.width()),
            fits_i32(position.y + resource@.height()),
        ensures
            r@.id.len() == 36,
            ({
                let p = Rect {
                    x: position.x,
                    y: position.y,
                    w: resource@.width() as i32,
                    h: resource@.height() as i32,
                };
                r@ == SpriteView::<E> {
                    id: r@.id,
                    name: name@,
                    kind_name: Seq::<char>::empty(),
                    score: 0,
                    lives: 0,
                    parent: None,
                    killer: None,
                    rel: None,
                    rel2: None,
                    rel3: None,
                    ext: None,
                    resource: resource@,
                    position: p,
                    collision: collision_of(p),
                    bounds,
                    velocity,
                    z_order: z_order as int,
                    bounds_action,
                    hidden: false,
                    dying: false,
                }
            }),
    {
        let w = resource.width();
        let h = resource.height();
        let place = Placement::at(Rect { x: position.x, y: position.y, w, h });
        Sprite {
            id: fresh_id(),
            kind_name: String::new(),
            lives: 0,
            score: 0,
            parent_id: None,
            killer_id: None,
            rel_id: None,
            rel_id2: None,
            rel_id3: None,
            name,
            sprite_ext: None,
            place,
            resource,
            velocity,
            z_order,
            bounds,
            bounds_action,
            hidden: false,
            dying: false,
        }
    }

    /// The engine's part of a tick at time `now` (microseconds).
    ///
    /// A dying sprite reports `Kill` and is left alone. Otherwise its
    /// animation ticks; a one-shot animation that has finished marks the
    /// sprite dying, which is reported on the next update. The sprite then
    /// moves by its velocity under its bounds policy; `Die` reports `Kill`
    /// without moving once the sprite would be fully outside. A place or
    /// velocity beyond the `i32` range saturates at its edge.
    pub fn sprite_update(&mut self, now: u64) -> (r: SpriteAction)
        ensures
            r == old(self)@.step_action(now),
            final(self)@ == old(self)@.stepped(now),
    {
        if self.dying {
            return SpriteAction::Kill;
        }
        match &mut self.resource {
            Resource::Animation(anim) => {
                let _ = anim.update(now);
                if !anim.is_repeat() && anim.is_end() {
                    self.dying = true;
                }
            },
            Resource::Static(_) => {},
        }
        let pos = self.place.get_position();
        let (x, y, vx, vy, kill) = step_motion(pos, self.velocity, self.bounds, self.bounds_action);
        if kill {
            return SpriteAction::Kill;
        }
        let lo = i32::MIN as i64;
        let hi = i32::MAX as i64;
        let x = clamp_i64(x, lo, hi - pos.w as i64);
        let y = clamp_i64(y, lo, hi - pos.h as i64);
        let vx = clamp_i64(vx, lo, hi);
        let vy = clamp_i64(vy, lo, hi);
        self.velocity = Point { x: vx as i32, y: vy as i32 };
        self.place = Placement::at(Rect { x: x as i32, y: y as i32, w: pos.w, h: pos.h });
        SpriteAction::Continue
    }

    /// Whether the hit-box overlaps `test`, touching edges included.
    pub fn test_collison(&self, test: &Rect) -> (r: bool)
        ensures
            r == spec_intersects(self@.collision, *test),
    {
        let c = self.place.get_collision();
        intersects(&c, test)
    }

    /// The blit that draws the sprite; none when hidden or when its
    /// animation has no frames.
    pub fn draw(&self) -> (r: Option<Blit>)
        ensures
            r == self@.drawn(),
    {
        if self.hidden {
            return None;
        }
        let pos = self.place.get_position();
        let dest = Rect {
            x: pos.x,
            y: pos.y,
            w: self.resource.width(),
            h: self.resource.height(),
        };
        match &self.resource {
            Resource::Animation(anim) => anim.draw(dest),
            Resource::Static(image) => Some(
                Blit {
                    texture: image.texture,
                    src: Rect { x: 0, y: 0, w: image.width, h: image.height },
                    dst: dest,
                },
            ),
        }
    }
}

impl<E> Sprite<E> {
    /// A sprite at the origin, at rest, that stops at its bounds.
    pub fn from_bitmap(name: String, resource: Resource, bounds: Rect) -> (r: Sprite<E>)
        requires
            resource@.wf(),
        ensures
            r@.id.len() == 36,
            ({
                let p = Rect { x: 0, y: 0, w: resource@.width() as i32, h: resource@.height() as i32 };
                r@ == SpriteView::<E> {
                    id: r@.id,
                    name: name@,
                    kind_name: Seq::<char>::empty(),
                    score: 0,
                    lives: 0,
                    parent: None,
                    killer: None,
                    rel: None,
                    rel2: None,
                    rel3: None,
                    ext: None,
                    resource: resource@,
                    position: p,
                    collision: collision_of(p),
                    bounds,
                    velocity: Point { x: 0, y: 0 },
                    z_order: 0,
                    bounds_action: BoundsAction::Stop,
                    hidden: false,
                    dying: false,
                }
            }),
    {
        Sprite::new(
            name,
            resource,
            Point { x: 0, y: 0 },
            Point { x: 0, y: 0 },
            0,
            bounds,
            BoundsAction::Stop,
        )
    }

    /// A sprite at rest at a random offset `(x, y)` with `0 <= x < bounds.w`
    /// and `0 <= y < bounds.h` (zero on an axis of zero size).
    pub fn with_bounds_action(
        name: String,
        resource: Resource,
        bounds: Rect,
        bounds_action: BoundsAction,
    ) -> (r: Sprite<E>)
        requires
            resource@.wf(),
            bounds.w >= 0,
            bounds.h >= 0,
            fits_i32(bounds.w + resource@.width()),
            fits_i32(bounds.h + resource@.height()),
        ensures
            r@.id.len() == 36,
            0 <= r@.position.x <= bounds.w,
            0 <= r@.position.y <= bounds.h,
            bounds.w > 0 ==> r@.position.x < bounds.w,
            bounds.h > 0 ==> r@.position.y < bounds.h,
            ({
                let p = Rect {
                    x: r@.position.x,
                    y: r@.position.y,
                    w: resource@.width() as i32,
                    h: resource@.height() as i32,
                };
                r@ == SpriteView::<E> {
                    id: r@.id,
                    name: name@,
                    kind_name: Seq::<char>::empty(),
                    score: 0,
                    lives: 0,
                    parent: None,
                    killer: None,
                    rel: None,
                    rel2: None,
                    rel3: None,
                    ext: None,
                    resource: resource@,
                    position: p,
                    collision: collision_of(p),
                    bounds,
                    velocity: Point { x: 0, y: 0 },
                    z_order: 0,
                    bounds_action,
                    hidden: false,
                    dying: false,
                }
            }),
    {
        let x_pos = crate::rand_int(0, bounds.w);
        let y_pos = crate::rand_int(0, bounds.h);
        Sprite::new(
            name,
            resource,
            Point { x: x_pos, y: y_pos },
            Point { x: 0, y: 0 },
            0,
            bounds,
            bounds_action,
        )
    }

    pub fn set_velocity(&mut self, x: i32, y: i32)
        ensures
            final(self)@ == (SpriteView { velocity: Point { x, y }, ..old(self)@ }),
    {
        self.velocity = Point { x, y };
    }

    pub fn set_velocity_point(&mut self, velocity: &Point)
        ensures
            final(self)@ == (SpriteView { velocity: *velocity, ..old(self)@ }),
    {
        self.velocity = *velocity;
    }

    pub fn velocity(&self) -> (r: Point)
        ensures
            r == self@.velocity,
    {
        self.velocity
    }

    /// Moves the sprite's origin to `position`, keeping its size.
    pub fn set_position_point(&mut self, position: &Point)
        requires
            fits_i32(position.x + old(self)@.position.w),
            fits_i32(position.y + old(self)@.position.h),
        ensures
            final(self)@ == old(self)@.placed(
                Rect { x: position.x, y: position.y, ..old(self)@.position },
            ),
    {
        self.set_position(position.x, position.y);
    }

    /// Moves the sprite's origin to `(x, y)`, keeping its size.
    pub fn set_position(&mut self, x: i32, y: i32)
        requires
            fits_i32(x + old(self)@.position.w),
            fits_i32(y + old(self)@.position.h),
        ensures
            final(self)@ == old(self)@.placed(Rect { x, y, ..old(self)@.position }),
    {
        let p = self.place.get_position();
        self.place = Placement::at(p.moved_to(x, y));
    }

    /// Places the sprite at `position`, size included.
    pub fn set_position_rect(&mut self, position: Rect)
        requires
            position.wf(),
        ensures
            final(self)@ == old(self)@.placed(position),
    {
        self.place = Placement::at(position);
    }

    /// Whether the point lies within the sprite's position rectangle
    /// (right and bottom edges excluded).
    pub fn is_point_inside(&self, x: i32, y: i32) -> (r: bool)
        ensures
            r == self@.position.spec_contains(x as int, y as int),
    {
        let p = self.place.get_position();
        p.contains(x, y)
    }

    pub fn height(&self) -> (r: i32)
        ensures
            r == self@.resource.height(),
    {
        self.resource.height()
    }

    pub fn width(&self) -> (r: i32)
        ensures
            r == self@.resource.width(),
    {
        self.resource.width()
    }

    pub fn z_order(&self) -> (r: i32)
        ensures
            r == self@.z_order,
    {
        self.z_order
    }

    pub fn resource(&self) -> (r: &Resource)
        ensures
            r@ == self@.resource,
    {
        &self.resource
    }

    /// The resource, for the host to change; the sprite's position keeps
    /// its size.
    pub fn resource_mut(&mut self) -> (r: &mut Resource)
        ensures
            r@ == old(self)@.resource,
            final(self)@ == (SpriteView { resource: final(r)@, ..old(self)@ }),
    {
        &mut self.resource
    }

    pub fn position(&self) -> (r: Rect)
        ensures
            r == self@.position,
            r.wf(),
    {
        self.place.get_position()
    }

    pub fn collision(&self) -> (r: Rect)
        ensures
            r == self@.collision,
    {
        self.place.get_collision()
    }

    pub fn bounds(&self) -> (r: Rect)
        ensures
            r == self@.bounds,
    {
        self.bounds
    }

    pub fn bounds_action(&self) -> (r: BoundsAction)
        ensures
            r == self@.bounds_action,
    {
        self.bounds_action
    }

    pub fn hidden(&self) -> (r: bool)
        ensures
            r == self@.hidden,
    {
        self.hidden
    }

    pub fn set_hidden(&mut self, hidden: bool)
        ensures
            final(self)@ == (SpriteView { hidden, ..old(self)@ }),
    {
        self.hidden = hidden;
    }

    /// Attaches behaviour to the sprite, replacing any it had.
    pub fn ext(&mut self, sprite_ext: E)
        ensures
            final(self)@ == (SpriteView { ext: Some(sprite_ext), ..old(self)@ }),
    {
        self.sprite_ext = Some(sprite_ext);
    }

    pub fn id(&self) -> (r: &str)
        ensures
            r@ == self@.id,
    {
        self.id.as_str()
    }

    /// Whether the sprite's id is `id`.
    pub fn has_id(&self, id: &String) -> (r: bool)
        ensures
            r == (self@.id == id@),
    {
        self.id == *id
    }

    pub fn killer(&self) -> (r: Option<&String>)
        ensures
            r matches Some(s) ==> self@.killer == Some(s@),
            r is None ==> self@.killer is None,
    {
        self.killer_id.as_ref()
    }

    pub fn set_killer_id(&mut self, killer_id: Option<String>)
        ensures
            final(self)@ == (SpriteView { killer: opt_view(killer_id), ..old(self)@ }),
    {
        self.killer_id = killer_id;
    }

    pub fn rel_id(&self) -> (r: Option<&String>)
        ensures
            r matches Some(s) ==> self@.rel == Some(s@),
            r is None ==> self@.rel is None,
    {
        self.rel_id.as_ref()
    }

    pub fn set_rel_id(&mut self, rel_id: Option<String>)
        ensures
            final(self)@ == (SpriteView { rel: opt_view(rel_id), ..old(self)@ }),
    {
        self.rel_id = rel_id;
    }

    pub fn rel_id2(&self) -> (r: Option<&String>)
        ensures
            r matches Some(s) ==> self@.rel2 == Some(s@),
            r is None ==> self@.rel2 is None,
    {
        self.rel_id2.as_ref()
    }

    pub fn set_rel_id2(&mut self, rel_id2: Option<String>)
        ensures
            final(self)@ == (SpriteView { rel2: opt_view(rel_id2), ..old(self)@ }),
    {
        self.rel_id2 = rel_id2;
    }

    pub fn rel_id3(&self) -> (r: Option<&String>)
        ensures
            r matches Some(s) ==> self@.rel3 == Some(s@),
            r is None ==> self@.rel3 is None,
    {
        self.rel_id3.as_ref()
    }

    pub fn set_rel_id3(&mut self, rel_id3: Option<String>)
        ensures
            final(self)@ == (SpriteView { rel3: opt_view(rel_id3), ..old(self)@ }),
    {
        self.rel_id3 = rel_id3;
    }

    /// Marks the sprite dying; the next update reports `Kill`.
    pub fn kill(&mut self)
        ensures
            final(self)@ == (SpriteView { dying: true, ..old(self)@ }),
    {
        self.dying = true;
    }

    pub fn dying(&self) -> (r: bool)
        ensures
            r == self@.dying,
    {
        self.dying
    }

    pub fn parent(&self) -> (r: Option<&String>)
        ensures
            r matches Some(s) ==> self@.parent == Some(s@),
            r is None ==> self@.parent is None,
    {
        self.parent_id.as_ref()
    }

    pub fn set_parent(&mut self, parent_id: Option<String>)
        ensures
            final(self)@ == (SpriteView { parent: opt_view(parent_id), ..old(self)@ }),
    {
        self.parent_id = parent_id;
    }

    pub fn name(&self) -> (r: &str)
        ensures
            r@ == self@.name,
    {
        self.name.as_str()
    }

    pub fn set_name(&mut self, name: String)
        ensures
            final(self)@ == (SpriteView { name: name@, ..old(self)@ }),
    {
        self.name = name;
    }

    pub fn set_bounds_action(&mut self, bounds_action: BoundsAction)
        ensures
            final(self)@ == (SpriteView { bounds_action, ..old(self)@ }),
    {
        self.bounds_action = bounds_action;
    }

    pub fn add_score(&mut self, v: i32)
        requires
            fits_i32(old(self)@.score + v),
        ensures
            final(self)@ == (SpriteView { score: old(self)@.score + v, ..old(self)@ }),
    {
        self.score = self.score + v;
    }

    pub fn score(&self) -> (r: i32)
        ensures
            r == self@.score,
    {
        self.score
    }

    pub fn kind_name(&self) -> (r: &str)
        ensures
            r@ == self@.kind_name,
    {
        self.kind_name.as_str()
    }

    pub fn set_kind_name(&mut self, kind_name: String)
        ensures
            final(self)@ == (SpriteView { kind_name: kind_name@, ..old(self)@ }),
    {
        self.kind_name = kind_name;
    }

    pub fn lives(&self) -> (r: i32)
        ensures
            r == self@.lives,
    {
        self.lives
    }

    pub fn add_lives(&mut self, v: i32)
        requires
            fits_i32(old(self)@.lives + v),
        ensures
            final(self)@ == (SpriteView { lives: old(self)@.lives + v, ..old(self)@ }),
    {
        self.lives = self.lives + v;
    }

    pub fn set_lives(&mut self, lives: i32)
        ensures
            final(self)@ == (SpriteView { lives: lives as int, ..old(self)@ }),
    {
        self.lives = lives;
    }

    pub fn set_id(&mut self, id: String)
        ensures
            final(self)@ == (SpriteView { id: id@, ..old(self)@ }),
    {
        self.id = id;
    }
}

impl<E: SpriteExt> Sprite<E> {
    /// A full tick: `sprite_update`, then the attached behaviour, which may
    /// ask for a new sprite but cannot cancel a `Kill`.
    pub fn update(&mut self, now: u64) -> (r: SpriteAction)
        ensures
            old(self)@.step_action(now) == SpriteAction::Kill ==> r == SpriteAction::Kill,
            old(self)@.ext is None ==> r == old(self)@.step_action(now) && final(self)@ == old(
                self,
            )@.stepped(now),
    {
        let action = self.sprite_update(now);
        let mut ext = self.sprite_ext.take();
        let r = match &mut ext {
            Some(e) => e.update(self, action),
            None => action,
        };
        if self.sprite_ext.is_none() {
            self.sprite_ext = ext;
        }
        if action == SpriteAction::Kill {
            SpriteAction::Kill
        } else {
            r
        }
    }

    /// The sprite that the attached behaviour makes, if any.
    pub fn add_sprite(&self) -> (r: Option<Sprite<E>>)
        ensures
            self@.ext is None ==> r is None,
    {
        match &self.sprite_ext {
            Some(ext) => ext.add_sprite(self),
            None => None,
        }
    }
}

} // verus!
