use sprite_engine::{BackgroundLayer, Blit, Drawable, Rect, ScrollDir, ScrollingBackground};

fn layer(x: i32, y: i32, w: i32, h: i32, speed: i32, dir: ScrollDir) -> BackgroundLayer {
    BackgroundLayer::new(Drawable::new(9, 100, 80), Rect::new(x, y, w, h), speed, dir)
}

fn blit(sx: i32, sy: i32, dx: i32, dy: i32, w: i32, h: i32) -> Blit {
    Blit { texture: 9, src: Rect::new(sx, sy, w, h), dst: Rect::new(dx, dy, w, h) }
}

/// Every pixel of the viewport-sized area is drawn exactly once, from the
/// bitmap pixel that the viewport shows there.
fn assert_tiles(l: &BackgroundLayer, blits: &[Blit]) {
    let v = l.viewport();
    for py in 0..v.h {
        for px in 0..v.w {
            let hits: Vec<&Blit> = blits
                .iter()
                .filter(|b| b.dst.x <= px && px < b.dst.x + b.dst.w && b.dst.y <= py && py < b.dst.y + b.dst.h)
                .collect();
            assert_eq!(hits.len(), 1);
            let b = hits[0];
            let sx = b.src.x + (px - b.dst.x);
            let sy = b.src.y + (py - b.dst.y);
            assert_eq!(sx, (v.x + px).rem_euclid(100));
            assert_eq!(sy, (v.y + py).rem_euclid(80));
        }
    }
}

#[test]
fn inside_viewport_is_one_blit() {
    let l = layer(10, 20, 50, 40, 0, ScrollDir::Left);
    assert_eq!(l.draw(), vec![blit(10, 20, 0, 0, 50, 40)]);
}

#[test]
fn top_left_corner_is_four_blits() {
    let l = layer(-10, -20, 50, 40, 0, ScrollDir::Left);
    let b = l.draw();
    assert_eq!(
        b,
        vec![
            blit(90, 60, 0, 0, 10, 20),
            blit(0, 60, 10, 0, 40, 20),
            blit(90, 0, 0, 20, 10, 20),
            blit(0, 0, 10, 20, 40, 20),
        ]
    );
    assert_tiles(&l, &b);
}

#[test]
fn bottom_right_corner_is_four_blits() {
    let l = layer(70, 60, 50, 40, 0, ScrollDir::Left);
    let b = l.draw();
    assert_eq!(
        b,
        vec![
            blit(70, 60, 0, 0, 30, 20),
            blit(0, 60, 30, 0, 20, 20),
            blit(70, 0, 0, 20, 30, 20),
            blit(0, 0, 30, 20, 20, 20),
        ]
    );
    assert_tiles(&l, &b);
}

#[test]
fn other_corners_tile() {
    for (x, y) in [(70, -15), (-25, 55), (-50, -40), (100, 80), (0, 0), (50, 40)] {
        let l = layer(x, y, 50, 40, 0, ScrollDir::Left);
        let b = l.draw();
        assert!(b.len() <= 4);
        assert_tiles(&l, &b);
    }
}

#[test]
fn single_edges_are_two_blits() {
    let top = layer(10, -5, 50, 40, 0, ScrollDir::Left);
    assert_eq!(top.draw(), vec![blit(10, 75, 0, 0, 50, 5), blit(10, 0, 0, 5, 50, 35)]);
    let right = layer(60, 10, 50, 40, 0, ScrollDir::Left);
    assert_eq!(right.draw(), vec![blit(60, 10, 0, 0, 40, 40), blit(0, 10, 40, 0, 10, 40)]);
    let bottom = layer(10, 50, 50, 40, 0, ScrollDir::Left);
    assert_eq!(bottom.draw(), vec![blit(10, 50, 0, 0, 50, 30), blit(10, 0, 0, 30, 50, 10)]);
    let left = layer(-5, 10, 50, 40, 0, ScrollDir::Left);
    assert_eq!(left.draw(), vec![blit(95, 10, 0, 0, 5, 40), blit(0, 10, 5, 0, 45, 40)]);
}

#[test]
fn empty_parts_are_skipped() {
    // the viewport starts exactly at the right edge: only the wrapped part
    let l = layer(100, 10, 50, 40, 0, ScrollDir::Left);
    assert_eq!(l.draw(), vec![blit(0, 10, 0, 0, 50, 40)]);
}

#[test]
fn scrolling_left_by_full_width_returns() {
    let mut l = layer(10, 5, 50, 40, 25, ScrollDir::Left);
    let start = l.viewport();
    l.update();
    assert_eq!(l.viewport(), Rect::new(35, 5, 50, 40));
    for _ in 0..3 {
        l.update();
    }
    assert_eq!(l.viewport(), start);
}

#[test]
fn scrolling_wraps_by_one_dimension() {
    let mut right = layer(-45, 0, 50, 40, 10, ScrollDir::Right);
    right.update();
    assert_eq!(right.viewport(), Rect::new(45, 0, 50, 40));
    let mut up = layer(0, 75, 50, 40, 10, ScrollDir::Up);
    up.update();
    assert_eq!(up.viewport(), Rect::new(0, 5, 50, 40));
    let mut down = layer(0, -35, 50, 40, 10, ScrollDir::Down);
    down.update();
    assert_eq!(down.viewport(), Rect::new(0, 35, 50, 40));
    let mut left = layer(95, 0, 50, 40, 10, ScrollDir::Left);
    left.update();
    assert_eq!(left.viewport(), Rect::new(5, 0, 50, 40));
}

#[test]
fn setters_steer_the_layer() {
    let mut l = layer(0, 0, 50, 40, 0, ScrollDir::Left);
    l.set_speed(3);
    l.set_direction(ScrollDir::Down);
    l.update();
    assert_eq!(l.viewport(), Rect::new(0, -3, 50, 40));
    l.set_viewport(Rect::new(1, 2, 3, 4));
    assert_eq!(l.viewport(), Rect::new(1, 2, 3, 4));
    assert_eq!(l.width(), 100);
    assert_eq!(l.height(), 80);
}

#[test]
fn background_draws_layers_back_to_front() {
    let mut bg = ScrollingBackground::new();
    bg.add_layer(layer(10, 20, 50, 40, 5, ScrollDir::Left));
    bg.add_layer(layer(-10, 20, 50, 40, 5, ScrollDir::Right));
    assert_eq!(bg.draw().len(), 3);
    bg.update();
    assert_eq!(bg.layers()[0].viewport().x, 15);
    assert_eq!(bg.layers()[1].viewport().x, -15);
    bg.layers()[1].set_speed(0);
    bg.update();
    assert_eq!(bg.layers()[1].viewport().x, -15);
}

#[test]
fn degenerate_layers_draw_nothing() {
    let empty = BackgroundLayer::new(Drawable::new(9, 0, 80), Rect::new(0, 0, 50, 40), 1, ScrollDir::Left);
    assert!(empty.draw().is_empty());
    assert!(!empty.is_drawable());
    let negative = layer(0, 0, -5, 40, 0, ScrollDir::Left);
    assert!(negative.draw().is_empty());
    let mut bg = ScrollingBackground::new();
    bg.add_layer(empty);
    bg.add_layer(layer(10, 20, 50, 40, 5, ScrollDir::Left));
    assert_eq!(bg.draw().len(), 1);
}

#[test]
fn scroll_limit_is_checked() {
    let l = layer(i32::MAX - 2, 0, 0, 40, 5, ScrollDir::Up);
    assert!(l.can_scroll());
    let r = layer(i32::MIN, 0, 50, 40, i32::MAX, ScrollDir::Right);
    assert!(!r.can_scroll());
}
