//! The sprite collection and the per-tick driver.
use vstd::prelude::*;
use crate::geom::{intersects, spec_intersects, Blit, Rect};
use crate::sprite::{Sprite, SpriteAction, SpriteExt, SpriteView};

verus! {

/// Hooks through which a game hears of deaths and arbitrates collisions.
/// The hooks see the sprites but do not change them: a game that reacts by
/// changing sprites (scores, lives) records what to do and applies it
/// through the engine once the tick is over.
pub trait GameEngine<E> {
    /// Sprite `index` is about to be removed.
    fn sprite_dying(&mut self, sprites: &[Sprite<E>], index: usize);

    /// Sprite `hittee` has moved into sprite `hitter`; returns whether the
    /// move is blocked, in which case it is undone.
    fn sprite_collision(&mut self, sprites: &[Sprite<E>], hitter: usize, hittee: usize) -> bool;
}

/// `k` is where a sprite of z-order `z` goes: after every sprite of lower
/// or equal z-order that precedes the first sprite of greater z-order.
pub open spec fn is_insert_point<E>(s: Seq<SpriteView<E>>, z: int, k: int) -> bool {
    &&& 0 <= k <= s.len()
    &&& forall|i: int| 0 <= i < k ==> (#[trigger] s[i]).z_order <= z
    &&& k < s.len() ==> z < s[k].z_order
}

/// The index of the first sprite at or after `i` whose z-order is greater
/// than `z`, or the length if there is none.
pub open spec fn first_greater<E>(s: Seq<SpriteView<E>>, z: int, i: int) -> int
    decreases s.len() - i,
{
    if i >= s.len() {
        s.len() as int
    } else if z < s[i].z_order {
        i
    } else {
        first_greater(s, z, i + 1)
    }
}

/// The insertion point of a sprite of z-order `z`.
pub open spec fn insert_point<E>(s: Seq<SpriteView<E>>, z: int) -> int {
    first_greater(s, z, 0)
}

/// The collection is in ascending z-order.
pub open spec fn z_sorted<E>(s: Seq<SpriteView<E>>) -> bool {
    forall|i: int, j: int|
        0 <= i < j < s.len() ==> (#[trigger] s[i]).z_order <= (#[trigger] s[j]).z_order
}

proof fn lemma_first_greater<E>(s: Seq<SpriteView<E>>, z: int, i: int)
    requires
        0 <= i <= s.len(),
        forall|j: int| 0 <= j < i ==> (#[trigger] s[j]).z_order <= z,
    ensures
        is_insert_point(s, z, first_greater(s, z, i)),
    decreases s.len() - i,
{
    if i < s.len() && !(z < s[i].z_order) {
        lemma_first_greater(s, z, i + 1);
    }
}

/// The insertion point is the only index that satisfies `is_insert_point`.
pub proof fn lemma_insert_point<E>(s: Seq<SpriteView<E>>, z: int, k: int)
    requires
        is_insert_point(s, z, k),
    ensures
        insert_point(s, z) == k,
{
    lemma_first_greater(s, z, 0);
    let c = insert_point(s, z);
    if c < k {
        assert(s[c].z_order <= z);
    } else if k < c {
        assert(s[k].z_order <= z);
    }
}

/// Adding a sprite to a collection in ascending z-order keeps it in
/// ascending z-order; the new sprite comes after every sprite of lower or
/// equal z-order, so sprites of equal z-order stay in insertion order.
pub proof fn lemma_add_keeps_order<E>(s: Seq<SpriteView<E>>, v: SpriteView<E>)
    requires
        z_sorted(s),
    ensures
        z_sorted(s.insert(insert_point(s, v.z_order), v)),
        is_insert_point(s, v.z_order, insert_point(s, v.z_order)),
{
    lemma_first_greater(s, v.z_order, 0);
    let k = insert_point(s, v.z_order);
    let t = s.insert(k, v);
    assert forall|i: int, j: int| 0 <= i < j < t.len() implies (#[trigger] t[i]).z_order <= (
    #[trigger] t[j]).z_order by {
        if j < k {
            assert(t[i] == s[i] && t[j] == s[j]);
        } else if j == k {
            assert(t[i] == s[i]);
        } else if i < k {
            assert(t[i] == s[i] && t[j] == s[j - 1]);
            assert(s[i].z_order <= v.z_order);
            assert(v.z_order < s[k].z_order);
            assert(s[k].z_order <= s[j - 1].z_order);
        } else if i == k {
            assert(t[j] == s[j - 1]);
            assert(s[k].z_order <= s[j - 1].z_order);
        } else {
            assert(t[i] == s[i - 1] && t[j] == s[j - 1]);
        }
    }
}

/// The sprites of `s` whose id is not among `ids`, in order.
pub open spec fn without_ids<E>(s: Seq<SpriteView<E>>, ids: Seq<Seq<char>>) -> Seq<SpriteView<E>>
    decreases s.len(),
{
    if s.len() == 0 {
        s
    } else {
        let rest = without_ids(s.drop_first(), ids);
        if ids.contains(s[0].id) {
            rest
        } else {
            seq![s[0]] + rest
        }
    }
}

proof fn lemma_without_ids<E>(s: Seq<SpriteView<E>>, ids: Seq<Seq<char>>)
    ensures
        forall|k: int|
            0 <= k < without_ids(s, ids).len() ==> !ids.contains(
                (#[trigger] without_ids(s, ids)[k]).id,
            ),
        without_ids(s, ids).len() <= s.len(),
    decreases s.len(),
{
    if s.len() > 0 {
        lemma_without_ids(s.drop_first(), ids);
        let rest = without_ids(s.drop_first(), ids);
        if !ids.contains(s[0].id) {
            assert forall|k: int| 0 <= k < without_ids(s, ids).len() implies !ids.contains(
                (#[trigger] without_ids(s, ids)[k]).id,
            ) by {
                if k > 0 {
                    assert(without_ids(s, ids)[k] == rest[k - 1]);
                }
            }
        }
    }
}

/// Sprite `j` is another sprite than `i` and its hit-box overlaps sprite
/// `i`'s.
pub open spec fn collides<E>(s: Seq<SpriteView<E>>, i: int, j: int) -> bool {
    j != i && spec_intersects(s[i].collision, s[j].collision)
}

/// A shown sprite whose position contains the point.
pub open spec fn shows_point<E>(v: SpriteView<E>, x: int, y: int) -> bool {
    !v.hidden && v.position.spec_contains(x, y)
}

/// The blits of all sprites in order, skipping those that draw nothing.
pub open spec fn drawn_all<E>(s: Seq<SpriteView<E>>) -> Seq<Blit>
    decreases s.len(),
{
    if s.len() == 0 {
        seq![]
    } else {
        drawn_all(s.drop_last()) + match s.last().drawn() {
            Some(b) => seq![b],
            None => seq![],
        }
    }
}

proof fn lemma_views_update<E>()
    ensures
        forall|a: Seq<Sprite<E>>, k: int, x: Sprite<E>|
            0 <= k < a.len() ==> (#[trigger] a.update(k, x)).map_values(|s: Sprite<E>| s@)
                == a.map_values(|s: Sprite<E>| s@).update(k, x@),
{
    assert forall|a: Seq<Sprite<E>>, k: int, x: Sprite<E>| 0 <= k < a.len() implies (
    #[trigger] a.update(k, x)).map_values(|s: Sprite<E>| s@) == a.map_values(|s: Sprite<E>| s@).update(
        k,
        x@,
    ) by {
        assert(a.update(k, x).map_values(|s: Sprite<E>| s@) =~= a.map_values(|s: Sprite<E>| s@).update(
            k,
            x@,
        ));
    }
}

proof fn lemma_views_remove<E>()
    ensures
        forall|a: Seq<Sprite<E>>, k: int|
            0 <= k < a.len() ==> (#[trigger] a.remove(k)).map_values(|s: Sprite<E>| s@)
                == a.map_values(|s: Sprite<E>| s@).remove(k),
{
    assert forall|a: Seq<Sprite<E>>, k: int| 0 <= k < a.len() implies (
    #[trigger] a.remove(k)).map_values(|s: Sprite<E>| s@) == a.map_values(|s: Sprite<E>| s@).remove(
        k,
    ) by {
        assert(a.remove(k).map_values(|s: Sprite<E>| s@) =~= a.map_values(|s: Sprite<E>| s@).remove(
            k,
        ));
    }
}

/// No sprite has behaviour attached.
pub open spec fn all_plain<E>(s: Seq<SpriteView<E>>) -> bool {
    forall|k: int| 0 <= k < s.len() ==> (#[trigger] s[k]).ext is None
}

/// The ids of the sprites whose update at `now` reports `Kill`, in order.
pub open spec fn killed_ids<E>(s: Seq<SpriteView<E>>, now: u64) -> Seq<Seq<char>>
    decreases s.len(),
{
    if s.len() == 0 {
        seq![]
    } else {
        killed_ids(s.drop_last(), now) + if s.last().step_action(now) == SpriteAction::Kill {
            seq![s.last().id]
        } else {
            seq![]
        }
    }
}

/// `t` is the sprite `s` after its turn in a tick at `now`: updated, and,
/// if it did not report `Kill`, possibly moved back to where it was, with
/// its hit-box re-derived and the velocity from its update kept.
pub open spec fn turn_outcome<E>(s: SpriteView<E>, t: SpriteView<E>, now: u64) -> bool {
    t == s.stepped(now) || (s.step_action(now) != SpriteAction::Kill && t == s.stepped(now).placed(
        s.position,
    ))
}

/// Every sprite's turn in a tick at `now` took `s` to `t`.
pub open spec fn tick_outcome<E>(s: Seq<SpriteView<E>>, t: Seq<SpriteView<E>>, now: u64) -> bool {
    t.len() == s.len() && forall|k: int|
        0 <= k < s.len() ==> #[trigger] turn_outcome(s[k], t[k], now)
}

/// No sprite's moved hit-box overlaps another sprite's hit-box, whether
/// that one has moved or not.
pub open spec fn apart<E>(s: Seq<SpriteView<E>>, now: u64) -> bool {
    forall|i: int, j: int|
        0 <= i < s.len() && 0 <= j < s.len() && i != j ==> !spec_intersects(
            (#[trigger] s[i]).stepped(now).collision,
            (#[trigger] s[j]).collision,
        ) && !spec_intersects(s[i].stepped(now).collision, s[j].stepped(now).collision)
}

/// Leaving out sprites by id keeps a collection in ascending z-order.
pub proof fn lemma_without_ids_sorted<E>(s: Seq<SpriteView<E>>, ids: Seq<Seq<char>>)
    requires
        z_sorted(s),
    ensures
        z_sorted(without_ids(s, ids)),
        forall|k: int|
            0 <= k < without_ids(s, ids).len() ==> s[0].z_order <= (#[trigger] without_ids(
                s,
                ids,
            )[k]).z_order,
    decreases s.len(),
{
    if s.len() > 0 {
        let t = s.drop_first();
        assert(z_sorted(t)) by {
            assert forall|i: int, j: int| 0 <= i < j < t.len() implies (#[trigger] t[i]).z_order
                <= (#[trigger] t[j]).z_order by {
                assert(t[i] == s[i + 1] && t[j] == s[j + 1]);
            }
        }
        lemma_without_ids_sorted(t, ids);
        let rest = without_ids(t, ids);
        if t.len() > 0 {
            assert(s[0].z_order <= s[1].z_order);
        }
        assert forall|k: int| 0 <= k < rest.len() implies s[0].z_order <= (
        #[trigger] rest[k]).z_order by {
            assert(t.len() > 0);
            assert(s[0].z_order <= s[1].z_order);
        }
        if !ids.contains(s[0].id) {
            let w = without_ids(s, ids);
            assert(w =~= seq![s[0]] + rest);
            assert forall|i: int, j: int| 0 <= i < j < w.len() implies (#[trigger] w[i]).z_order
                <= (#[trigger] w[j]).z_order by {
                if i == 0 {
                    assert(w[j] == rest[j - 1]);
                } else {
                    assert(w[i] == rest[i - 1] && w[j] == rest[j - 1]);
                }
            }
            assert forall|k: int| 0 <= k < w.len() implies s[0].z_order <= (
            #[trigger] w[k]).z_order by {
                if k > 0 {
                    assert(w[k] == rest[k - 1]);
                }
            }
        }
    }
}

/// A tick of sprites without behaviour keeps a collection in ascending
/// z-order.
pub proof fn lemma_tick_keeps_order<E>(
    s: Seq<SpriteView<E>>,
    t: Seq<SpriteView<E>>,
    ids: Seq<Seq<char>>,
    now: u64,
)
    requires
        z_sorted(s),
        tick_outcome(s, t, now),
    ensures
        z_sorted(without_ids(t, ids)),
{
    assert forall|i: int, j: int| 0 <= i < j < t.len() implies (#[trigger] t[i]).z_order <= (
    #[trigger] t[j]).z_order by {
        assert(turn_outcome(s[i], t[i], now));
        assert(turn_outcome(s[j], t[j], now));
        assert(s[i].z_order <= s[j].z_order);
    }
    lemma_without_ids_sorted(t, ids);
}

/// One sprite's turn in a tick: the sprite at the start of its turn, the
/// sprite after its update, the action it reported, the sprite its
/// behaviour made (if any), and whether the game blocked its move.
pub ghost struct Turn<E> {
    pub start: SpriteView<E>,
    pub updated: SpriteView<E>,
    pub action: SpriteAction,
    pub child: Option<SpriteView<E>>,
    pub blocked: bool,
}

/// The sprite at the end of its turn: a blocked move is undone, putting the
/// sprite back at its starting position with its hit-box re-derived and the
/// velocity from its update kept.
pub open spec fn finished<E>(t: Turn<E>) -> SpriteView<E> {
    if t.blocked {
        t.updated.placed(t.start.position)
    } else {
        t.updated
    }
}

pub open spec fn finished_all<E>(ts: Seq<Turn<E>>) -> Seq<SpriteView<E>> {
    ts.map_values(|t: Turn<E>| finished(t))
}

/// The ids of the sprites whose turn reported `Kill`, in order.
pub open spec fn killed_of<E>(ts: Seq<Turn<E>>) -> Seq<Seq<char>>
    decreases ts.len(),
{
    if ts.len() == 0 {
        seq![]
    } else {
        killed_of(ts.drop_last()) + if ts.last().action == SpriteAction::Kill {
            seq![ts.last().updated.id]
        } else {
            seq![]
        }
    }
}

/// The sprites made during the turns, in order.
pub open spec fn children_of<E>(ts: Seq<Turn<E>>) -> Seq<SpriteView<E>>
    decreases ts.len(),
{
    if ts.len() == 0 {
        seq![]
    } else {
        children_of(ts.drop_last()) + match ts.last().child {
            Some(c) => seq![c],
            None => seq![],
        }
    }
}

/// `s` with each sprite of `cs` added in turn, by z-order.
pub open spec fn insert_all<E>(s: Seq<SpriteView<E>>, cs: Seq<SpriteView<E>>) -> Seq<SpriteView<E>>
    decreases cs.len(),
{
    if cs.len() == 0 {
        s
    } else {
        insert_all(s.insert(insert_point(s, cs[0].z_order), cs[0]), cs.drop_first())
    }
}

/// The collection while sprite `k` is checked for a collision: earlier
/// sprites have finished their turns, sprite `k` has been updated, later
/// ones are as they were.
pub open spec fn during_turn<E>(s0: Seq<SpriteView<E>>, ts: Seq<Turn<E>>, k: int) -> Seq<SpriteView<E>> {
    finished_all(ts.subrange(0, k)) + seq![ts[k].updated] + s0.subrange(k + 1, s0.len() as int)
}

/// Turn `k` is what the engine does with sprite `k`: the sprite is as it
/// was at the start of the tick; its update is the engine's step when it
/// has no behaviour, and a behaviour cannot cancel a `Kill`; only a sprite
/// asking for one gets a child; and only a move that hit another sprite,
/// by a sprite that did not report `Kill`, can be blocked.
pub open spec fn turn_valid<E>(s0: Seq<SpriteView<E>>, ts: Seq<Turn<E>>, k: int, now: u64) -> bool {
    let t = ts[k];
    &&& t.start == s0[k]
    &&& t.start.ext is None ==> t.updated == t.start.stepped(now) && t.action
        == t.start.step_action(now)
    &&& t.start.step_action(now) == SpriteAction::Kill ==> t.action == SpriteAction::Kill
    &&& t.child is Some ==> t.action == SpriteAction::AddSprite
    &&& t.blocked ==> t.action != SpriteAction::Kill && exists|j: int|
        0 <= j < s0.len() && #[trigger] collides(during_turn(s0, ts, k), k, j)
}

/// Every sprite of `s0` took one valid turn.
pub open spec fn tick_valid<E>(s0: Seq<SpriteView<E>>, ts: Seq<Turn<E>>, now: u64) -> bool {
    &&& ts.len() == s0.len()
    &&& forall|k: int| 0 <= k < s0.len() ==> #[trigger] turn_valid(s0, ts, k, now)
}

/// The collection after a tick made of turns `ts`: every sprite finished
/// its turn, the children were added by z-order, and the sprites whose
/// turn reported `Kill` were removed.
pub open spec fn after_tick<E>(ts: Seq<Turn<E>>) -> Seq<SpriteView<E>> {
    without_ids(insert_all(finished_all(ts), children_of(ts)), killed_of(ts))
}

/// Every turn kept its sprite's z-order.
pub open spec fn keeps_z<E>(ts: Seq<Turn<E>>) -> bool {
    forall|k: int| 0 <= k < ts.len() ==> (#[trigger] ts[k]).updated.z_order == ts[k].start.z_order
}

/// Adding sprites by z-order keeps a collection in ascending z-order.
pub proof fn lemma_insert_all_sorted<E>(s: Seq<SpriteView<E>>, cs: Seq<SpriteView<E>>)
    requires
        z_sorted(s),
    ensures
        z_sorted(insert_all(s, cs)),
    decreases cs.len(),
{
    if cs.len() > 0 {
        lemma_add_keeps_order(s, cs[0]);
        lemma_insert_all_sorted(s.insert(insert_point(s, cs[0].z_order), cs[0]), cs.drop_first());
    }
}

/// A tick whose turns keep each sprite's z-order keeps a collection in
/// ascending z-order, children included.
pub proof fn lemma_after_tick_sorted<E>(s0: Seq<SpriteView<E>>, ts: Seq<Turn<E>>, now: u64)
    requires
        z_sorted(s0),
        tick_valid(s0, ts, now),
        keeps_z(ts),
    ensures
        z_sorted(after_tick(ts)),
{
    let f = finished_all(ts);
    assert forall|i: int, j: int| 0 <= i < j < f.len() implies (#[trigger] f[i]).z_order <= (
    #[trigger] f[j]).z_order by {
        assert(turn_valid(s0, ts, i, now));
        assert(turn_valid(s0, ts, j, now));
        assert(ts[i].updated.z_order == ts[i].start.z_order);
        assert(ts[j].updated.z_order == ts[j].start.z_order);
        assert(s0[i].z_order <= s0[j].z_order);
    }
    lemma_insert_all_sorted(f, children_of(ts));
    lemma_without_ids_sorted(insert_all(f, children_of(ts)), killed_of(ts));
}

/// The sprite collection, in ascending z-order.
pub struct SpriteEngine<E> {
    sprites: Vec<Sprite<E>>,
}

impl<E> View for SpriteEngine<E> {
    type V = Seq<SpriteView<E>>;

    closed spec fn view(&self) -> Seq<SpriteView<E>> {
        self.sprites@.map_values(|s: Sprite<E>| s@)
    }
}

impl<E> SpriteEngine<E> {
    pub fn new() -> (r: SpriteEngine<E>)
        ensures
            r@ == Seq::<SpriteView<E>>::empty(),
    {
        let r = SpriteEngine { sprites: Vec::new() };
        proof {
            assert(r@ =~= Seq::<SpriteView<E>>::empty());
        }
        r
    }

    pub fn sprites(&self) -> (r: &[Sprite<E>])
        ensures
            r@.map_values(|s: Sprite<E>| s@) == self@,
    {
        self.sprites.as_slice()
    }

    pub fn sprites_mut(&mut self) -> (r: &mut [Sprite<E>])
        ensures
            r@.map_values(|s: Sprite<E>| s@) == old(self)@,
            final(self)@ == final(r)@.map_values(|s: Sprite<E>| s@),
    {
        self.sprites.as_mut_slice()
    }

    /// Inserts the sprite before the first sprite of greater z-order, or at
    /// the end; sprites of equal z-order keep their insertion order.
    pub fn add_sprite(&mut self, sprite: Sprite<E>)
        ensures
            final(self)@ == old(self)@.insert(insert_point(old(self)@, sprite@.z_order), sprite@),
    {
        let z = sprite.z_order();
        let mut i: usize = 0;
        while i < self.sprites.len()
            invariant
                self@ == old(self)@,
                self.sprites@.len() == self@.len(),
                i <= self@.len(),
                z == sprite@.z_order,
                forall|j: int| 0 <= j < i ==> (#[trigger] self@[j]).z_order <= z,
            decreases self@.len() - i,
        {
            assert(self@[i as int] == self.sprites@[i as int]@);
            if z < self.sprites[i].z_order() {
                proof {
                    lemma_insert_point(self@, z as int, i as int);
                }
                self.sprites.insert(i, sprite);
                proof {
                    assert(self@ =~= old(self)@.insert(i as int, sprite@));
                }
                return;
            }
            i += 1;
        }
        proof {
            lemma_insert_point(self@, z as int, i as int);
        }
        self.sprites.push(sprite);
        proof {
            assert(self@ =~= old(self)@.insert(i as int, sprite@));
        }
    }

    /// The first sprite other than `i` whose hit-box overlaps sprite `i`'s.
    pub fn find_collision(&self, i: usize) -> (r: Option<usize>)
        requires
            i < self@.len(),
        ensures
            r matches Some(j) ==> j < self@.len() && collides(self@, i as int, j as int) && forall|
                k: int,
            | 0 <= k < j ==> !#[trigger] collides(self@, i as int, k),
            r is None ==> forall|k: int| 0 <= k < self@.len() ==> !#[trigger] collides(self@, i as int, k),
    {
        let c = self.sprites[i].collision();
        let mut j: usize = 0;
        while j < self.sprites.len()
            invariant
                self.sprites@.len() == self@.len(),
                i < self@.len(),
                c == self@[i as int].collision,
                j <= self@.len(),
                forall|k: int| 0 <= k < j ==> !#[trigger] collides(self@, i as int, k),
            decreases self@.len() - j,
        {
            if j != i {
                assert(self@[j as int] == self.sprites@[j as int]@);
                if intersects(&c, &self.sprites[j].collision()) {
                    return Some(j);
                }
            }
            j += 1;
        }
        None
    }

    /// The index of the first sprite with id `id`.
    pub fn index_of_sprite(&self, id: &str) -> (r: Option<usize>)
        ensures
            r matches Some(k) ==> k < self@.len() && self@[k as int].id == id@ && forall|j: int|
                0 <= j < k ==> (#[trigger] self@[j]).id != id@,
            r is None ==> forall|j: int| 0 <= j < self@.len() ==> (#[trigger] self@[j]).id != id@,
    {
        let key = id.to_owned();
        let mut k: usize = 0;
        while k < self.sprites.len()
            invariant
                self.sprites@.len() == self@.len(),
                key@ == id@,
                k <= self@.len(),
                forall|j: int| 0 <= j < k ==> (#[trigger] self@[j]).id != id@,
            decreases self@.len() - k,
        {
            assert(self@[k as int] == self.sprites@[k as int]@);
            if self.sprites[k].has_id(&key) {
                return Some(k);
            }
            k += 1;
        }
        None
    }

    /// Whether some sprite has id `id`.
    pub fn contains_sprite(&self, id: &str) -> (r: bool)
        ensures
            r == exists|j: int| 0 <= j < self@.len() && (#[trigger] self@[j]).id == id@,
    {
        match self.index_of_sprite(id) {
            Some(k) => {
                assert(self@[k as int].id == id@);
                true
            },
            None => false,
        }
    }

    /// The first sprite with id `id`, if any.
    pub fn get_sprite(&self, id: &str) -> (r: Option<&Sprite<E>>)
        ensures
            r matches Some(s) ==> exists|k: int|
                0 <= k < self@.len() && s@ == self@[k] && self@[k].id == id@ && forall|j: int|
                    0 <= j < k ==> (#[trigger] self@[j]).id != id@,
            r is None ==> forall|j: int| 0 <= j < self@.len() ==> (#[trigger] self@[j]).id != id@,
    {
        match self.index_of_sprite(id) {
            Some(k) => {
                assert(self@[k as int] == self.sprites@[k as int]@);
                Some(&self.sprites[k])
            },
            None => None,
        }
    }

    /// The first sprite with id `id`, which must exist, for changing.
    pub fn sprite_mut(&mut self, id: &str) -> (r: &mut Sprite<E>)
        requires
            exists|j: int| 0 <= j < old(self)@.len() && (#[trigger] old(self)@[j]).id == id@,
        ensures
            exists|k: int|
                0 <= k < old(self)@.len() && old(self)@[k].id == id@ && (forall|j: int|
                    0 <= j < k ==> (#[trigger] old(self)@[j]).id != id@) && r@ == old(self)@[k]
                    && final(self)@ == old(self)@.update(k, final(r)@),
    {
        let k = match self.index_of_sprite(id) {
            Some(k) => k,
            None => {
                proof {
                    let j = choose|j: int| 0 <= j < self@.len() && (#[trigger] self@[j]).id == id@;
                    assert(self@[j].id == id@);
                }
                0
            },
        };
        assert(self@[k as int] == self.sprites@[k as int]@);
        proof {
            lemma_views_update::<E>();
        }
        &mut self.sprites[k]
    }

    /// Marks the first sprite with id `id`, if any, as dying.
    pub fn kill_sprite(&mut self, id: &str)
        ensures
            (forall|j: int| 0 <= j < old(self)@.len() ==> (#[trigger] old(self)@[j]).id != id@)
                ==> final(self)@ == old(self)@,
            forall|k: int|
                0 <= k < old(self)@.len() && old(self)@[k].id == id@ && (forall|j: int|
                    0 <= j < k ==> (#[trigger] old(self)@[j]).id != id@) ==> final(self)@ == old(
                    self,
                )@.update(k, SpriteView { dying: true, ..old(self)@[k] }),
    {
        match self.index_of_sprite(id) {
            Some(k) => {
                assert(self@[k as int] == self.sprites@[k as int]@);
                self.sprites[k].kill();
                proof {
                    assert(self@ =~= old(self)@.update(
                        k as int,
                        SpriteView { dying: true, ..old(self)@[k as int] },
                    ));
                }
            },
            None => {},
        }
    }

    /// Removes every sprite.
    pub fn clean_up_sprites(&mut self)
        ensures
            final(self)@ == Seq::<SpriteView<E>>::empty(),
    {
        self.sprites.clear();
        proof {
            assert(self@ =~= Seq::<SpriteView<E>>::empty());
        }
    }

    /// The first shown sprite whose position contains the point.
    pub fn is_point_in_sprite(&self, x: i32, y: i32) -> (r: Option<&Sprite<E>>)
        ensures
            r matches Some(s) ==> exists|k: int|
                0 <= k < self@.len() && s@ == self@[k] && shows_point(self@[k], x as int, y as int)
                    && forall|j: int|
                    0 <= j < k ==> !#[trigger] shows_point(self@[j], x as int, y as int),
            r is None ==> forall|j: int|
                0 <= j < self@.len() ==> !#[trigger] shows_point(self@[j], x as int, y as int),
    {
        let mut k: usize = 0;
        while k < self.sprites.len()
            invariant
                self.sprites@.len() == self@.len(),
                k <= self@.len(),
                forall|j: int| 0 <= j < k ==> !#[trigger] shows_point(self@[j], x as int, y as int),
            decreases self@.len() - k,
        {
            assert(self@[k as int] == self.sprites@[k as int]@);
            if !self.sprites[k].hidden() && self.sprites[k].is_point_inside(x, y) {
                return Some(&self.sprites[k]);
            }
            k += 1;
        }
        None
    }

    /// The blits that draw every sprite, lowest z-order first.
    pub fn draw_sprites(&self) -> (r: Vec<Blit>)
        ensures
            r@ == drawn_all(self@),
    {
        let mut out: Vec<Blit> = Vec::new();
        let mut k: usize = 0;
        while k < self.sprites.len()
            invariant
                self.sprites@.len() == self@.len(),
                k <= self@.len(),
                out@ == drawn_all(self@.subrange(0, k as int)),
            decreases self@.len() - k,
        {
            assert(self@[k as int] == self.sprites@[k as int]@);
            let d = self.sprites[k].draw();
            proof {
                let t = self@.subrange(0, k + 1);
                assert(t.drop_last() =~= self@.subrange(0, k as int));
                assert(t.last() == self@[k as int]);
            }
            match d {
                Some(b) => out.push(b),
                None => {},
            }
            proof {
                let t = self@.subrange(0, k + 1);
                assert(out@ =~= drawn_all(t));
            }
            k += 1;
        }
        proof {
            assert(self@.subrange(0, k as int) =~= self@);
        }
        out
    }

    /// Removes every sprite whose id is among `ids`, keeping the order of
    /// the others.
    pub fn remove_sprites(&mut self, ids: &Vec<String>)
        ensures
            final(self)@ == without_ids(old(self)@, ids@.map_values(|s: String| s@)),
    {
        let ghost idv = ids@.map_values(|s: String| s@);
        let ghost n = old(self)@.len();
        let mut i: usize = self.sprites.len();
        while i > 0
            invariant
                i <= n,
                n == old(self)@.len(),
                idv == ids@.map_values(|s: String| s@),
                self.sprites@.len() == self@.len(),
                self@ == old(self)@.subrange(0, i as int) + without_ids(
                    old(self)@.subrange(i as int, n as int),
                    idv,
                ),
            decreases i,
        {
            i -= 1;
            let ghost tail = old(self)@.subrange(i as int, n as int);
            assert(tail.drop_first() =~= old(self)@.subrange(i + 1, n as int));
            assert(tail[0] == old(self)@[i as int]);
            assert(self@[i as int] == old(self)@[i as int]);
            assert(self@[i as int] == self.sprites@[i as int]@);
            let mut found = false;
            let mut j: usize = 0;
            while j < ids.len()
                invariant
                    j <= ids@.len(),
                    idv == ids@.map_values(|s: String| s@),
                    i < self.sprites@.len(),
                    found == exists|m: int| 0 <= m < j && idv[m] == self.sprites@[i as int]@.id,
                decreases ids@.len() - j,
            {
                assert(idv[j as int] == ids@[j as int]@);
                if self.sprites[i].has_id(&ids[j]) {
                    found = true;
                }
                proof {
                    if !found {
                        assert forall|m: int| 0 <= m < j + 1 implies idv[m]
                            != self.sprites@[i as int]@.id by {}
                    }
                }
                j += 1;
            }
            assert(found == idv.contains(self.sprites@[i as int]@.id));
            if found {
                proof {
                    lemma_views_remove::<E>();
                }
                self.sprites.remove(i);
                proof {
                    assert(self@ =~= old(self)@.subrange(0, i as int) + without_ids(tail, idv));
                }
            } else {
                proof {
                    assert(self@ =~= old(self)@.subrange(0, i as int) + without_ids(tail, idv));
                }
            }
        }
        proof {
            assert(old(self)@.subrange(0, n as int) =~= old(self)@);
            assert(old(self)@.subrange(0, 0) + without_ids(old(self)@, idv) =~= without_ids(
                old(self)@,
                idv,
            ));
        }
    }
}

impl<E> SpriteEngine<E> {
    /// Ends sprite `i`'s turn given the game's answer on its collision: a
    /// blocked move by a sprite that did not report `Kill` is undone, putting
    /// the sprite back at `start` with its hit-box re-derived and its
    /// velocity kept; otherwise the move stands.
    pub fn end_turn(&mut self, i: usize, start: Rect, action: SpriteAction, blocked: bool)
        requires
            i < old(self)@.len(),
            start.wf(),
        ensures
            final(self)@ == if blocked && action != SpriteAction::Kill {
                old(self)@.update(i as int, old(self)@[i as int].placed(start))
            } else {
                old(self)@
            },
    {
        if blocked && action != SpriteAction::Kill {
            proof {
                lemma_views_update::<E>();
            }
            assert(self@[i as int] == self.sprites@[i as int]@);
            self.sprites[i].set_position_rect(start);
        }
    }
}

impl<E: SpriteExt> SpriteEngine<E> {
    /// Looks for the first sprite whose hit-box overlaps sprite `i`'s and
    /// lets the game arbitrate; returns whether sprite `i`'s move is blocked.
    pub fn check_sprite_collision<G: GameEngine<E>>(&self, game: &mut G, i: usize) -> (r: bool)
        requires
            i < self@.len(),
        ensures
            (forall|k: int| 0 <= k < self@.len() ==> !#[trigger] collides(self@, i as int, k))
                ==> !r,
    {
        match self.find_collision(i) {
            Some(j) => game.sprite_collision(self.sprites.as_slice(), j, i),
            None => false,
        }
    }

    /// One tick at time `now` (microseconds). Each sprite present at the
    /// start takes one turn, in order: it is updated; a sprite that asks
    /// for a new sprite gets it added, by z-order, after the pass; a sprite
    /// that reports `Kill` is announced to the game, skips the collision
    /// check, and is removed after the pass; any other sprite is checked for
    /// a collision and, if the game blocks the move, put back where it was
    /// (velocity kept). Returns the ids of the removed sprites.
    ///
    /// The outcome is `after_tick` of turns that `tick_valid` describes; the
    /// game's answers and the behaviours' doings are what the turns leave
    /// open. For sprites without behaviour the turns are the engine's own
    /// steps, and when no moved hit-box overlaps another no move is undone.
    pub fn update_sprites<G: GameEngine<E>>(&mut self, game: &mut G, now: u64) -> (r: Vec<String>)
        ensures
            exists|ts: Seq<Turn<E>>|
                {
                    &&& #[trigger] tick_valid(old(self)@, ts, now)
                    &&& final(self)@ == after_tick(ts)
                    &&& r@.map_values(|s: String| s@) == killed_of(ts)
                    &&& z_sorted(old(self)@) && keeps_z(ts) ==> z_sorted(final(self)@)
                },
            forall|k: int|
                0 <= k < final(self)@.len() ==> !r@.map_values(|s: String| s@).contains(
                    (#[trigger] final(self)@[k]).id,
                ),
            all_plain(old(self)@) ==> r@.map_values(|s: String| s@) == killed_ids(old(self)@, now),
            all_plain(old(self)@) ==> exists|t: Seq<SpriteView<E>>|
                tick_outcome(old(self)@, t, now) && final(self)@ == without_ids(
                    t,
                    killed_ids(old(self)@, now),
                ),
            all_plain(old(self)@) && apart(old(self)@, now) ==> final(self)@ == without_ids(
                old(self)@.map_values(|v: SpriteView<E>| v.stepped(now)),
                killed_ids(old(self)@, now),
            ),
    {
        let ghost s0 = self@;
        let n = self.sprites.len();
        let mut to_kill: Vec<String> = Vec::new();
        let mut spawned: Vec<Sprite<E>> = Vec::new();
        let ghost mut ts: Seq<Turn<E>> = seq![];
        let mut i: usize = 0;
        while i < n
            invariant
                n == s0.len(),
                s0 == old(self)@,
                self@.len() == n,
                self.sprites@.len() == n,
                i <= n,
                ts.len() == i,
                forall|k: int| 0 <= k < i ==> #[trigger] turn_valid(s0, ts, k, now),
                self@ == finished_all(ts) + s0.subrange(i as int, n as int),
                to_kill@.map_values(|s: String| s@) == killed_of(ts),
                spawned@.map_values(|s: Sprite<E>| s@) == children_of(ts),
                all_plain(s0) ==> spawned@.len() == 0,
                all_plain(s0) ==> to_kill@.map_values(|s: String| s@) == killed_ids(
                    s0.subrange(0, i as int),
                    now,
                ),
                all_plain(s0) ==> forall|k: int|
                    0 <= k < i ==> #[trigger] turn_outcome(s0[k], self@[k], now),
                all_plain(s0) && apart(s0, now) ==> forall|k: int|
                    0 <= k < i ==> #[trigger] self@[k] == s0[k].stepped(now),
            decreases n - i,
        {
            proof {
                lemma_views_update::<E>();
                assert(self@[i as int] == s0[i as int]);
            }
            assert(self@[i as int] == self.sprites@[i as int]@);
            let old_pos = self.sprites[i].position();
            let ghost before = self@;
            let action = self.sprites[i].update(now);
            let ghost upd = self.sprites@[i as int]@;
            proof {
                assert(self@ == before.update(i as int, upd));
                if all_plain(s0) {
                    assert(s0[i as int].ext is None);
                }
            }
            let ghost mut child: Option<SpriteView<E>> = None;
            let ghost sv = spawned@.map_values(|s: Sprite<E>| s@);
            if action == SpriteAction::AddSprite {
                match self.sprites[i].add_sprite() {
                    Some(c) => {
                        proof {
                            child = Some(c@);
                        }
                        spawned.push(c);
                    },
                    None => {},
                }
            }
            proof {
                assert(spawned@.map_values(|s: Sprite<E>| s@) =~= sv + match child {
                    Some(c) => seq![c],
                    None => seq![],
                });
            }
            let ghost sub = s0.subrange(0, i + 1);
            proof {
                assert(sub.drop_last() =~= s0.subrange(0, i as int));
                assert(sub.last() == s0[i as int]);
            }
            let ghost mut blocked = false;
            let ghost at_check = self@;
            let ghost kv = to_kill@.map_values(|s: String| s@);
            if action == SpriteAction::Kill {
                game.sprite_dying(self.sprites.as_slice(), i);
                assert(self@[i as int] == self.sprites@[i as int]@);
                let id = self.sprites[i].id().to_owned();
                to_kill.push(id);
                proof {
                    assert(to_kill@.map_values(|s: String| s@) =~= kv.push(id@));
                    if all_plain(s0) {
                        assert(killed_ids(sub, now) =~= kv + seq![s0[i as int].id]);
                        assert(turn_outcome(s0[i as int], self@[i as int], now));
                    }
                }
            } else {
                proof {
                    if all_plain(s0) {
                        assert(killed_ids(sub, now) =~= killed_ids(s0.subrange(0, i as int), now));
                    }
                    if all_plain(s0) && apart(s0, now) {
                        assert forall|k: int| 0 <= k < self@.len() implies !#[trigger] collides(
                            self@,
                            i as int,
                            k,
                        ) by {
                            if k != i {
                                assert(self@[i as int] == s0[i as int].stepped(now));
                                if k < i {
                                    assert(self@[k] == s0[k].stepped(now));
                                } else {
                                    assert(self@[k] == s0[k]);
                                }
                            }
                        }
                    }
                }
                let answer = self.check_sprite_collision(game, i);
                proof {
                    blocked = answer;
                    if answer {
                        assert(exists|j: int| 0 <= j < s0.len() && #[trigger] collides(at_check, i as int, j));
                    }
                }
                self.end_turn(i, old_pos, action, answer);
                proof {
                    if all_plain(s0) {
                        assert(turn_outcome(s0[i as int], self@[i as int], now));
                    }
                }
                proof {
                    assert(to_kill@.map_values(|s: String| s@) == kv);
                }
            }
            proof {
                let t = Turn { start: s0[i as int], updated: upd, action, child, blocked };
                let ts2 = ts.push(t);
                assert(ts2.drop_last() =~= ts);
                assert(ts2.last() == t);
                assert(ts2.subrange(0, i as int) =~= ts);
                assert(finished_all(ts2) =~= finished_all(ts).push(finished(t)));
                assert(during_turn(s0, ts2, i as int) =~= finished_all(ts) + seq![upd] + s0.subrange(
                    i + 1,
                    n as int,
                ));
                assert(before =~= finished_all(ts) + s0.subrange(i as int, n as int));
                if blocked {
                    assert(at_check =~= during_turn(s0, ts2, i as int));
                }
                assert forall|k: int| 0 <= k < i + 1 implies #[trigger] turn_valid(s0, ts2, k, now) by {
                    if k < i {
                        assert(turn_valid(s0, ts, k, now));
                        assert(ts2[k] == ts[k]);
                        assert(ts2.subrange(0, k) =~= ts.subrange(0, k));
                        assert(during_turn(s0, ts2, k) =~= during_turn(s0, ts, k));
                    }
                }
                assert(self@ =~= finished_all(ts2) + s0.subrange(i + 1, n as int));
                ts = ts2;
            }
            i += 1;
        }
        proof {
            assert(s0.subrange(n as int, n as int) =~= Seq::<SpriteView<E>>::empty());
            assert(self@ =~= finished_all(ts));
        }
        let ghost t = self@;
        while spawned.len() > 0
            invariant
                insert_all(self@, spawned@.map_values(|s: Sprite<E>| s@)) == insert_all(
                    finished_all(ts),
                    children_of(ts),
                ),
                all_plain(s0) ==> spawned@.len() == 0 && self@ == t,
            decreases spawned@.len(),
        {
            let ghost sv = spawned@.map_values(|s: Sprite<E>| s@);
            let s = spawned.remove(0);
            proof {
                assert(spawned@.map_values(|s: Sprite<E>| s@) =~= sv.drop_first());
                lemma_first_greater(self@, s@.z_order, 0);
            }
            self.add_sprite(s);
        }
        proof {
            assert(spawned@.map_values(|s: Sprite<E>| s@) =~= Seq::<SpriteView<E>>::empty());
        }
        let ghost before = self@;
        self.remove_sprites(&to_kill);
        proof {
            lemma_without_ids(before, to_kill@.map_values(|s: String| s@));
            assert(tick_valid(s0, ts, now));
            if z_sorted(s0) && keeps_z(ts) {
                lemma_after_tick_sorted(s0, ts, now);
            }
            if all_plain(s0) {
                assert(s0.subrange(0, n as int) =~= s0);
                assert(tick_outcome(s0, t, now));
                if apart(s0, now) {
                    assert(t =~= s0.map_values(|v: SpriteView<E>| v.stepped(now)));
                }
            }
        }
        to_kill
    }
}

} // verus!
