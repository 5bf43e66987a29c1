use sprite_engine::{
    BoundsAction, Drawable, GameEngine, NoExt, Point, Rect, Resource, Sprite, SpriteAction,
    SpriteEngine, SpriteExt,
};

fn make<E>(name: &str, x: i32, y: i32, vx: i32, z: i32) -> Sprite<E> {
    Sprite::new(
        name.to_string(),
        Resource::Static(Drawable::new(1, 12, 12)),
        Point::new(x, y),
        Point::new(vx, 0),
        z,
        Rect::new(0, 0, 200, 200),
        BoundsAction::Unbounded,
    )
}

struct Recorder {
    dying: Vec<String>,
    hits: Vec<(usize, usize)>,
    scored: Vec<String>,
    block: bool,
}

impl<E> GameEngine<E> for Recorder {
    fn sprite_dying(&mut self, sprites: &[Sprite<E>], index: usize) {
        self.dying.push(sprites[index].name().to_string());
    }

    fn sprite_collision(&mut self, sprites: &[Sprite<E>], hitter: usize, hittee: usize) -> bool {
        self.hits.push((hitter, hittee));
        self.scored.push(sprites[hitter].id().to_string());
        self.block
    }
}

fn recorder(block: bool) -> Recorder {
    Recorder { dying: vec![], hits: vec![], scored: vec![], block }
}

fn names<E>(engine: &SpriteEngine<E>) -> Vec<String> {
    engine.sprites().iter().map(|s| s.name().to_string()).collect()
}

#[test]
fn insertion_follows_z_order() {
    let mut engine: SpriteEngine<NoExt> = SpriteEngine::new();
    engine.add_sprite(make("five", 0, 0, 0, 5));
    engine.add_sprite(make("one", 0, 0, 0, 1));
    engine.add_sprite(make("three", 0, 0, 0, 3));
    let zs: Vec<i32> = engine.sprites().iter().map(|s| s.z_order()).collect();
    assert_eq!(zs, vec![1, 3, 5]);
}

#[test]
fn equal_z_orders_keep_insertion_order() {
    let mut engine: SpriteEngine<NoExt> = SpriteEngine::new();
    engine.add_sprite(make("a", 0, 0, 0, 2));
    engine.add_sprite(make("b", 0, 0, 0, 2));
    engine.add_sprite(make("c", 0, 0, 0, 1));
    engine.add_sprite(make("d", 0, 0, 0, 2));
    assert_eq!(names(&engine), vec!["c", "a", "b", "d"]);
}

#[test]
fn lookups_by_id() {
    let mut engine: SpriteEngine<NoExt> = SpriteEngine::new();
    let mut a = make("a", 0, 0, 0, 0);
    a.set_id("id-a".to_string());
    let mut b = make("b", 50, 50, 0, 1);
    b.set_id("id-b".to_string());
    engine.add_sprite(a);
    engine.add_sprite(b);
    assert_eq!(engine.index_of_sprite("id-b"), Some(1));
    assert_eq!(engine.index_of_sprite("nope"), None);
    assert!(engine.contains_sprite("id-a"));
    assert!(!engine.contains_sprite("nope"));
    assert_eq!(engine.get_sprite("id-a").unwrap().name(), "a");
    assert!(engine.get_sprite("nope").is_none());
    engine.sprite_mut("id-b").set_lives(9);
    assert_eq!(engine.get_sprite("id-b").unwrap().lives(), 9);
    engine.kill_sprite("id-a");
    assert!(engine.get_sprite("id-a").unwrap().dying());
    assert!(!engine.get_sprite("id-b").unwrap().dying());
}

#[test]
fn point_lookup_skips_hidden() {
    let mut engine: SpriteEngine<NoExt> = SpriteEngine::new();
    let mut a = make("a", 0, 0, 0, 0);
    a.set_hidden(true);
    engine.add_sprite(a);
    engine.add_sprite(make("b", 5, 5, 0, 1));
    assert_eq!(engine.is_point_in_sprite(6, 6).unwrap().name(), "b");
    assert!(engine.is_point_in_sprite(2, 2).is_none());
}

#[test]
fn collision_found_between_overlapping_hit_boxes() {
    let mut engine: SpriteEngine<NoExt> = SpriteEngine::new();
    engine.add_sprite(make("a", 0, 0, 0, 0));
    engine.add_sprite(make("far", 100, 100, 0, 1));
    engine.add_sprite(make("b", 10, 0, 0, 2));
    // hit-boxes (1..11) and (11..21) touch
    assert_eq!(engine.find_collision(0), Some(2));
    assert_eq!(engine.find_collision(2), Some(0));
    assert_eq!(engine.find_collision(1), None);
}

#[test]
fn blocked_collision_rolls_back_position_only() {
    let mut engine: SpriteEngine<NoExt> = SpriteEngine::new();
    engine.add_sprite(make("wall", 20, 0, 0, 0));
    engine.add_sprite(make("mover", 0, 0, 5, 1));
    let mut game = recorder(true);
    engine.update_sprites(&mut game, 0);
    // mover at 5: hit-box 6..16 does not reach the wall's 21
    assert_eq!(engine.sprites()[1].position().left(), 5);
    engine.update_sprites(&mut game, 0);
    // mover at 10: hit-box 11..21 touches the wall: blocked, moved back
    assert_eq!(engine.sprites()[1].position().left(), 5);
    assert_eq!(engine.sprites()[1].velocity(), Point::new(5, 0));
    assert!(game.hits.contains(&(0, 1)));
    // the game applies its changes once the tick is over
    for id in game.scored.clone() {
        engine.sprite_mut(&id).add_score(1);
    }
    assert_eq!(engine.sprites()[0].score(), 1);
}

#[test]
fn unblocked_collision_keeps_the_move() {
    let mut engine: SpriteEngine<NoExt> = SpriteEngine::new();
    engine.add_sprite(make("wall", 20, 0, 0, 0));
    engine.add_sprite(make("mover", 5, 0, 5, 1));
    let mut game = recorder(false);
    engine.update_sprites(&mut game, 0);
    assert_eq!(engine.sprites()[1].position().left(), 10);
    assert_eq!(game.hits, vec![(0, 1)]);
}

#[test]
fn killed_sprites_are_announced_and_removed() {
    let mut engine: SpriteEngine<NoExt> = SpriteEngine::new();
    engine.add_sprite(make("a", 0, 0, 0, 0));
    engine.add_sprite(make("b", 100, 0, 0, 1));
    engine.add_sprite(make("c", 0, 100, 0, 2));
    let id_b = engine.sprites()[1].id().to_string();
    engine.kill_sprite(&id_b);
    let mut game = recorder(false);
    let removed = engine.update_sprites(&mut game, 0);
    assert_eq!(removed, vec![id_b.clone()]);
    assert_eq!(game.dying, vec!["b".to_string()]);
    assert_eq!(names(&engine), vec!["a", "c"]);
    assert!(!engine.contains_sprite(&id_b));
}

#[test]
fn remove_sprites_keeps_order_of_the_rest() {
    let mut engine: SpriteEngine<NoExt> = SpriteEngine::new();
    for (k, n) in ["a", "b", "c", "d"].iter().enumerate() {
        let mut s = make(n, 0, 0, 0, k as i32);
        s.set_id(format!("id-{}", n));
        engine.add_sprite(s);
    }
    engine.remove_sprites(&vec!["id-b".to_string(), "id-d".to_string(), "id-x".to_string()]);
    assert_eq!(names(&engine), vec!["a", "c"]);
    engine.clean_up_sprites();
    assert!(engine.sprites().is_empty());
}

#[derive(Clone)]
struct Spawner;

impl SpriteExt for Spawner {
    fn add_sprite(&self, sprite: &Sprite<Spawner>) -> Option<Sprite<Spawner>> {
        let p = sprite.position();
        Some(make("child", p.left(), p.top() + 50, 0, 0))
    }

    fn update(&mut self, sprite: &mut Sprite<Spawner>, action: SpriteAction) -> SpriteAction {
        if sprite.lives() > 0 && action == SpriteAction::Continue {
            sprite.add_lives(-1);
            SpriteAction::AddSprite
        } else {
            SpriteAction::Kill
        }
    }
}

#[test]
fn spawned_sprites_join_after_the_pass() {
    let mut engine: SpriteEngine<Spawner> = SpriteEngine::new();
    let mut gun = make("gun", 0, 0, 0, 3);
    gun.set_lives(1);
    gun.ext(Spawner);
    engine.add_sprite(gun);
    let mut game = recorder(false);
    let removed = engine.update_sprites(&mut game, 0);
    assert!(removed.is_empty());
    // the child (z-order 0) goes before the gun (z-order 3) and was not updated
    assert_eq!(names(&engine), vec!["child", "gun"]);
    assert_eq!(engine.sprites()[0].position().top(), 50);
    // out of lives: the behaviour asks for the kill
    let removed = engine.update_sprites(&mut game, 0);
    assert_eq!(removed.len(), 1);
    assert_eq!(names(&engine), vec!["child"]);
}

struct Reviver;

impl SpriteExt for Reviver {
    fn update(&mut self, _sprite: &mut Sprite<Reviver>, _action: SpriteAction) -> SpriteAction {
        SpriteAction::Continue
    }
}

#[test]
fn behaviour_cannot_cancel_a_kill() {
    let mut s: Sprite<Reviver> = make("r", 0, 0, 0, 0);
    s.ext(Reviver);
    s.kill();
    assert_eq!(s.update(0), SpriteAction::Kill);
}

#[test]
fn draw_sprites_in_z_order() {
    let mut engine: SpriteEngine<NoExt> = SpriteEngine::new();
    engine.add_sprite(make("top", 1, 1, 0, 9));
    let mut hidden = make("hidden", 2, 2, 0, 5);
    hidden.set_hidden(true);
    engine.add_sprite(hidden);
    engine.add_sprite(make("bottom", 3, 3, 0, 0));
    let blits = engine.draw_sprites();
    assert_eq!(blits.len(), 2);
    assert_eq!(blits[0].dst, Rect::new(3, 3, 12, 12));
    assert_eq!(blits[1].dst, Rect::new(1, 1, 12, 12));
}

#[test]
fn end_turn_undoes_only_blocked_moves() {
    let mut engine: SpriteEngine<NoExt> = SpriteEngine::new();
    engine.add_sprite(make("a", 30, 40, 0, 0));
    let start = Rect::new(1, 2, 12, 12);
    engine.end_turn(0, start, SpriteAction::Continue, false);
    assert_eq!(engine.sprites()[0].position().left(), 30);
    engine.end_turn(0, start, SpriteAction::Kill, true);
    assert_eq!(engine.sprites()[0].position().left(), 30);
    engine.end_turn(0, start, SpriteAction::Continue, true);
    assert_eq!(engine.sprites()[0].position(), start);
    assert_eq!(engine.sprites()[0].collision(), Rect::new(2, 3, 10, 10));
}
