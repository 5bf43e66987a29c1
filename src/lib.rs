//! A small sprite simulation and compositing engine.
//!
//! Sprites move on an integer pixel grid, react to the edges of their arena
//! according to a bounds policy, collide with each other through a shrunken
//! hit-box, and are drawn together with toroidal scrolling background layers.
//! Drawing is expressed as a list of blit commands that the host executes.
use vstd::prelude::*;

pub mod geom;
pub mod background;
pub mod animation;
pub mod sprite;
pub mod engine;
pub mod audio;

pub use animation::{Animation, AnimationTimer};
pub use audio::AudioType;
pub use background::{BackgroundLayer, ScrollDir, ScrollingBackground};
pub use engine::{GameEngine, SpriteEngine};
pub use geom::{inflate, Blit, Drawable, Point, Rect, Size};
pub use sprite::{BoundsAction, NoExt, Resource, Sprite, SpriteAction, SpriteExt};

verus! {

/// Relies on `macroquad::rand::gen_range` for `i32`: it scales a uniform
/// draw from `[0, 1)` onto `[low, high)` and truncates toward zero, so the
/// result lies between the two bounds, both included; from a low bound of
/// zero it stays below a positive high bound.
#[verifier::external_body]
pub fn rand_int(low: i32, high: i32) -> (r: i32)
    ensures
        low <= high ==> low <= r <= high,
        high < low ==> high <= r <= low,
        low == 0 && 0 < high ==> r < high,
{
    macroquad::rand::gen_range(low, high)
}

} // verus!
