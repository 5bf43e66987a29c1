use sprite_engine::{
    Animation, BoundsAction, Drawable, NoExt, Point, Rect, Resource, Sprite, SpriteAction,
};

fn block(w: i32, h: i32) -> Resource {
    Resource::Static(Drawable::new(7, w, h))
}

fn sprite_at(x: i32, y: i32, w: i32, h: i32, vx: i32, vy: i32, bounds: Rect, policy: BoundsAction) -> Sprite<NoExt> {
    Sprite::new(
        "s".to_string(),
        block(w, h),
        Point::new(x, y),
        Point::new(vx, vy),
        0,
        bounds,
        policy,
    )
}

fn arena() -> Rect {
    Rect::new(0, 0, 100, 100)
}

#[test]
fn wrap_scenario_from_left_edge() {
    let mut s = sprite_at(0, 0, 10, 10, -5, 0, arena(), BoundsAction::Wrap);
    assert_eq!(s.update(0), SpriteAction::Continue);
    // still partly inside: only a sprite fully past the edge wraps
    assert_eq!(s.position(), Rect::new(-5, 0, 10, 10));
    s.update(0);
    assert_eq!(s.position(), Rect::new(-10, 0, 10, 10));
    s.update(0);
    assert_eq!(s.position().left(), 100);
    assert_eq!(s.position().top(), 0);
    assert_eq!(s.velocity(), Point::new(-5, 0));
}

#[test]
fn wrap_past_right_edge_reenters_left() {
    let mut s = sprite_at(95, 50, 10, 10, 10, 0, arena(), BoundsAction::Wrap);
    s.update(0);
    assert_eq!(s.position().left(), -10);
    assert_eq!(s.position().top(), 50);
}

#[test]
fn wrap_stays_near_bounds_over_many_ticks() {
    let mut s = sprite_at(40, 40, 10, 10, 7, -13, arena(), BoundsAction::Wrap);
    for t in 0..200u64 {
        assert_eq!(s.update(t), SpriteAction::Continue);
        let p = s.position();
        assert!(p.left() >= -10 && p.left() <= 100);
        assert!(p.top() >= -10 && p.top() <= 100);
    }
}

#[test]
fn bounce_flips_sign_only() {
    let mut s = sprite_at(85, 50, 10, 10, 8, -3, arena(), BoundsAction::Bounce);
    s.update(0);
    assert_eq!(s.position(), Rect::new(90, 47, 10, 10));
    assert_eq!(s.velocity(), Point::new(-8, -3));
    let mut t = sprite_at(2, 1, 10, 10, -4, -6, arena(), BoundsAction::Bounce);
    t.update(0);
    assert_eq!(t.position(), Rect::new(0, 0, 10, 10));
    assert_eq!(t.velocity(), Point::new(4, 6));
}

#[test]
fn stop_clamps_and_zeroes_both_axes() {
    let mut s = sprite_at(85, 50, 10, 10, 8, 3, arena(), BoundsAction::Stop);
    s.update(0);
    assert_eq!(s.position(), Rect::new(90, 53, 10, 10));
    assert_eq!(s.velocity(), Point::new(0, 0));
    s.update(1);
    assert_eq!(s.position(), Rect::new(90, 53, 10, 10));
    assert_eq!(s.velocity(), Point::new(0, 0));
}

#[test]
fn stop_in_bounds_smaller_than_sprite_settles_at_low_edge() {
    let mut s = sprite_at(5, 5, 10, 10, 1, 0, Rect::new(0, 0, 4, 100), BoundsAction::Stop);
    s.update(0);
    assert_eq!(s.position().left(), 0);
    s.update(1);
    assert_eq!(s.position().left(), 0);
    assert_eq!(s.velocity(), Point::new(0, 0));
}

#[test]
fn die_kills_on_the_exact_tick() {
    let mut s = sprite_at(85, 50, 10, 10, 5, 0, arena(), BoundsAction::Die);
    assert_eq!(s.update(0), SpriteAction::Continue);
    assert_eq!(s.position().left(), 90);
    assert_eq!(s.update(0), SpriteAction::Continue);
    assert_eq!(s.position().left(), 95);
    assert_eq!(s.update(0), SpriteAction::Continue);
    assert_eq!(s.position().left(), 100);
    // 105 > 100: fully outside, killed without moving
    assert_eq!(s.update(0), SpriteAction::Kill);
    assert_eq!(s.position().left(), 100);
}

#[test]
fn unbounded_moves_freely() {
    let mut s = sprite_at(95, 95, 10, 10, 50, 50, arena(), BoundsAction::Unbounded);
    assert_eq!(s.update(0), SpriteAction::Continue);
    assert_eq!(s.position(), Rect::new(145, 145, 10, 10));
}

#[test]
fn move_out_of_coordinate_range_saturates() {
    let mut s = sprite_at(i32::MAX - 20, 0, 10, 10, 15, 0, arena(), BoundsAction::Unbounded);
    assert_eq!(s.update(0), SpriteAction::Continue);
    assert_eq!(s.position().left(), i32::MAX - 10);
    let mut b = sprite_at(0, 50, 10, 10, i32::MIN, 0, arena(), BoundsAction::Bounce);
    assert_eq!(b.update(0), SpriteAction::Continue);
    assert_eq!(b.position().left(), 0);
    assert_eq!(b.velocity(), Point::new(i32::MAX, 0));
}

#[test]
fn killed_sprite_reports_kill_and_stays() {
    let mut s = sprite_at(10, 10, 10, 10, 5, 5, arena(), BoundsAction::Unbounded);
    s.kill();
    assert!(s.dying());
    assert_eq!(s.update(0), SpriteAction::Kill);
    assert_eq!(s.position(), Rect::new(10, 10, 10, 10));
}

#[test]
fn collision_rect_is_inset_by_a_twelfth() {
    let s = sprite_at(10, 20, 24, 36, 0, 0, arena(), BoundsAction::Stop);
    assert_eq!(s.collision(), Rect::new(12, 23, 20, 30));
    let mut t = sprite_at(0, 0, 10, 10, 0, 0, arena(), BoundsAction::Stop);
    // the margin rounds up: one pixel for sides of two to twelve pixels
    assert_eq!(t.collision(), Rect::new(1, 1, 8, 8));
    t.set_position(30, 40);
    assert_eq!(t.collision(), Rect::new(31, 41, 8, 8));
    let u = sprite_at(5, 5, 25, 13, 0, 0, arena(), BoundsAction::Stop);
    assert_eq!(u.collision(), Rect::new(8, 7, 19, 9));
    t.set_position_rect(Rect::new(0, 0, 48, 12));
    assert_eq!(t.collision(), Rect::new(4, 1, 40, 10));
}

#[test]
fn tiny_sprites_hit_boxes() {
    let two = sprite_at(5, 5, 2, 2, 0, 0, arena(), BoundsAction::Stop);
    assert_eq!(two.collision(), Rect::new(6, 6, 0, 0));
    let one = sprite_at(5, 5, 1, 3, 0, 0, arena(), BoundsAction::Stop);
    assert_eq!(one.collision(), Rect::new(5, 6, 1, 1));
}

#[test]
fn collision_test_counts_touching_edges() {
    let s = sprite_at(0, 0, 12, 12, 0, 0, arena(), BoundsAction::Stop);
    // hit-box is (1, 1)..(11, 11)
    assert!(s.test_collison(&Rect::new(11, 11, 5, 5)));
    assert!(!s.test_collison(&Rect::new(12, 0, 5, 5)));
    assert!(s.test_collison(&Rect::new(-4, -4, 5, 5)));
    assert!(!s.test_collison(&Rect::new(-5, -5, 5, 5)));
}

#[test]
fn point_inside_excludes_far_edges() {
    let s = sprite_at(10, 10, 10, 10, 0, 0, arena(), BoundsAction::Stop);
    assert!(s.is_point_inside(10, 10));
    assert!(s.is_point_inside(19, 19));
    assert!(!s.is_point_inside(20, 15));
    assert!(!s.is_point_inside(9, 15));
}

#[test]
fn new_sprite_gets_fresh_36_char_id() {
    let a = sprite_at(0, 0, 1, 1, 0, 0, arena(), BoundsAction::Stop);
    let b = sprite_at(0, 0, 1, 1, 0, 0, arena(), BoundsAction::Stop);
    assert_eq!(a.id().len(), 36);
    assert_eq!(b.id().len(), 36);
    assert_ne!(a.id(), b.id());
}

#[test]
fn from_bitmap_starts_at_origin_with_stop() {
    let s: Sprite<NoExt> = Sprite::from_bitmap("b".to_string(), block(8, 6), arena());
    assert_eq!(s.position(), Rect::new(0, 0, 8, 6));
    assert_eq!(s.velocity(), Point::new(0, 0));
    assert_eq!(s.bounds_action(), BoundsAction::Stop);
    assert_eq!(s.z_order(), 0);
    assert_eq!(s.width(), 8);
    assert_eq!(s.height(), 6);
}

#[test]
fn with_bounds_action_places_within_bounds() {
    for _ in 0..50 {
        let s: Sprite<NoExt> =
            Sprite::with_bounds_action("r".to_string(), block(4, 4), Rect::new(5, 5, 30, 20), BoundsAction::Bounce);
        let p = s.position();
        assert!(p.left() >= 0 && p.left() < 30);
        assert!(p.top() >= 0 && p.top() < 20);
        assert_eq!(s.bounds_action(), BoundsAction::Bounce);
    }
}

#[test]
fn rand_int_stays_in_range() {
    for _ in 0..100 {
        let r = sprite_engine::rand_int(-3, 7);
        assert!(r >= -3 && r <= 7);
    }
    assert_eq!(sprite_engine::rand_int(4, 4), 4);
    for _ in 0..100 {
        assert_eq!(sprite_engine::rand_int(0, 1), 0);
    }
}

#[test]
fn one_shot_animation_dies_one_tick_late() {
    let frames = vec![
        Rect::new(0, 0, 16, 16),
        Rect::new(16, 0, 16, 16),
        Rect::new(32, 0, 16, 16),
        Rect::new(48, 0, 16, 16),
    ];
    let anim = Animation::active(Drawable::new(3, 64, 16), frames, 25, 0);
    let mut s: Sprite<NoExt> = Sprite::new(
        "boom".to_string(),
        Resource::Animation(anim),
        Point::new(0, 0),
        Point::new(1, 0),
        0,
        Rect::new(0, 0, 100, 100),
        BoundsAction::Unbounded,
    );
    assert_eq!(s.width(), 16);
    for (k, now) in [0u64, 40_000, 80_000, 120_000].iter().enumerate() {
        assert_eq!(s.update(*now), SpriteAction::Continue);
        assert_eq!(s.resource().amination().unwrap().current_frame(), k);
        assert!(!s.dying());
    }
    // past the fourth frame: dying, but it still moves this tick
    assert_eq!(s.update(160_000), SpriteAction::Continue);
    assert!(s.dying());
    assert_eq!(s.position().left(), 5);
    assert_eq!(s.update(200_000), SpriteAction::Kill);
    assert_eq!(s.position().left(), 5);
}

#[test]
fn draw_static_and_hidden() {
    let mut s = sprite_at(3, 4, 8, 6, 0, 0, arena(), BoundsAction::Stop);
    let b = s.draw().unwrap();
    assert_eq!(b.texture, 7);
    assert_eq!(b.src, Rect::new(0, 0, 8, 6));
    assert_eq!(b.dst, Rect::new(3, 4, 8, 6));
    s.set_hidden(true);
    assert!(s.draw().is_none());
}

#[test]
fn accessors_round_trip() {
    let mut s = sprite_at(0, 0, 4, 4, 0, 0, arena(), BoundsAction::Stop);
    s.set_name("hero".to_string());
    s.set_kind_name("player".to_string());
    s.add_score(5);
    s.add_score(-2);
    s.set_lives(3);
    s.add_lives(1);
    s.set_parent(Some("p".to_string()));
    s.set_killer_id(Some("k".to_string()));
    s.set_rel_id(Some("a".to_string()));
    s.set_rel_id2(None);
    s.set_rel_id3(Some("c".to_string()));
    s.set_velocity(2, 3);
    s.set_id("fixed".to_string());
    s.set_bounds_action(BoundsAction::Wrap);
    assert_eq!(s.name(), "hero");
    assert_eq!(s.kind_name(), "player");
    assert_eq!(s.score(), 3);
    assert_eq!(s.lives(), 4);
    assert_eq!(s.parent().map(|p| p.as_str()), Some("p"));
    assert_eq!(s.killer().map(|p| p.as_str()), Some("k"));
    assert_eq!(s.rel_id().map(|p| p.as_str()), Some("a"));
    assert!(s.rel_id2().is_none());
    assert_eq!(s.rel_id3().map(|p| p.as_str()), Some("c"));
    assert_eq!(s.velocity(), Point::new(2, 3));
    assert_eq!(s.id(), "fixed");
    assert_eq!(s.bounds_action(), BoundsAction::Wrap);
    s.set_velocity_point(&Point::new(-1, -1));
    s.set_position_point(&Point::new(7, 8));
    assert_eq!(s.velocity(), Point::new(-1, -1));
    assert_eq!(s.position(), Rect::new(7, 8, 4, 4));
}
