use sprite_engine::{Animation, AnimationTimer, Drawable, Rect};

fn frames(n: i32) -> Vec<Rect> {
    (0..n).map(|k| Rect::new(k * 10, 0, 10, 12)).collect()
}

#[test]
fn timer_comes_due_once_per_period() {
    let mut t = AnimationTimer::new(25, 1_000);
    assert!(!t.ready_for_next_frame(999));
    assert!(t.ready_for_next_frame(1_000));
    assert!(!t.ready_for_next_frame(40_999));
    assert!(t.ready_for_next_frame(41_000));
    // catching up: the next frame is due one period after the last due one
    assert!(t.ready_for_next_frame(200_000));
    assert!(t.ready_for_next_frame(200_000));
    t.reset(500_000);
    assert!(!t.ready_for_next_frame(499_999));
    t.set_fps(0);
    assert!(t.ready_for_next_frame(500_000));
    assert!(!t.ready_for_next_frame(u64::MAX - 1));
}

#[test]
fn stopped_animation_does_not_advance() {
    let mut a = Animation::new(Drawable::new(1, 40, 12), frames(4), 10, 0);
    assert!(!a.is_active());
    assert!(!a.update(1_000_000));
    assert_eq!(a.current_frame(), 0);
    a.start(0);
    assert!(a.update(0));
    assert!(a.update(100_000));
    assert_eq!(a.current_frame(), 1);
    a.stop();
    assert!(!a.update(200_000));
}

#[test]
fn repeating_animation_wraps_to_first_frame() {
    let mut a = Animation::active(Drawable::new(1, 30, 12), frames(3), 1, 0);
    a.set_repeat(true);
    assert!(a.is_repeat());
    for k in 0..3u64 {
        assert!(a.update(k * 1_000_000));
    }
    assert_eq!(a.current_frame(), 2);
    assert!(a.update(3_000_000));
    assert_eq!(a.current_frame(), 0);
    assert!(a.is_active());
    assert!(!a.is_end());
}

#[test]
fn one_shot_animation_ends_on_last_frame() {
    let mut a = Animation::active(Drawable::new(4, 20, 12), frames(2), 1, 0);
    a.update(0);
    a.update(1_000_000);
    assert!(!a.is_end());
    a.update(2_000_000);
    assert!(a.is_end());
    assert!(!a.is_active());
    let b = a.draw(Rect::new(5, 6, 10, 12)).unwrap();
    assert_eq!(b.src, Rect::new(10, 0, 10, 12));
    assert_eq!(b.dst, Rect::new(5, 6, 10, 12));
    assert_eq!(b.texture, 4);
}

#[test]
fn frame_selection_and_sizes() {
    let mut a = Animation::new(Drawable::new(1, 40, 12), frames(4), 10, 0);
    assert_eq!(a.frame_width(), 10);
    assert_eq!(a.frame_height(), 12);
    assert_eq!(a.draw(Rect::new(0, 0, 10, 12)).unwrap().src, Rect::new(0, 0, 10, 12));
    assert!(a.set_current_frame(3));
    assert_eq!(a.current_frame(), 3);
    assert!(!a.set_current_frame(4));
    assert_eq!(a.current_frame(), 3);
    let empty = Animation::new(Drawable::new(1, 0, 0), vec![], 10, 0);
    assert_eq!(empty.frame_width(), 0);
    assert_eq!(empty.frame_height(), 0);
    assert!(empty.draw(Rect::new(0, 0, 1, 1)).is_none());
}
