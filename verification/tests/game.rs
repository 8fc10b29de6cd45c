use kabuto_explosion::components::{Component, ComponentKind, Enemy, Transform, Vec2, Velocity};
use kabuto_explosion::game::{Cues, Game};
use kabuto_explosion::input::Input;
use kabuto_explosion::store::{Entity, Slot};

fn v(x: i64, y: i64) -> Vec2 {
    Vec2 { x, y }
}

fn quiet() -> Cues {
    Cues { hit_sound: false, shot_sound: false }
}

fn fire() -> Input {
    Input { space_released: true, ..Input::idle() }
}

fn enemies(game: &Game) -> Vec<Entity> {
    game.store.query(&[ComponentKind::Enemy])
}

fn shots(game: &Game) -> Vec<Entity> {
    game.store.query(&[ComponentKind::Shot])
}

fn place_of(game: &Game, e: Entity) -> Vec2 {
    game.store.get(e).unwrap().transform.unwrap().translation
}

/// Puts an enemy without speed of its own straight above the beetle.
fn enemy_above_the_beetle(game: &mut Game, height: i64) -> Entity {
    let e = game.spawn_enemy();
    game.store.attach(
        e,
        Component::Transform(Transform { translation: v(0, height), scale: v(180_000, 180_000) }),
    );
    game.store.attach(e, Component::Velocity(Velocity(v(0, 0))));
    e
}

#[test]
fn a_new_game_holds_the_walls_and_the_beetle() {
    let game = Game::new();
    assert_eq!(game.store.len(), 5);
    assert_eq!(game.store.query(&[ComponentKind::BoundCollider]).len(), 4);
    assert_eq!(game.store.query(&[ComponentKind::Kabuto]), vec![Entity { index: 4 }]);
    assert_eq!(place_of(&game, Entity { index: 4 }), v(0, -1_211_400));
    assert_eq!(game.scoreboard.value(), 0);
    assert!(game.collision_events.is_empty());
    assert!(game.shot_events.is_empty());
    assert!(game.is_sound());
    assert!(enemies(&game).is_empty());
}

#[test]
fn a_game_without_its_beetle_is_not_sound() {
    let mut game = Game::new();
    let kabuto = Entity { index: 4 };
    game.store.destroy(kabuto);
    assert!(!game.is_sound());
    game.store.sweep();
    assert!(!game.is_sound());
}

#[test]
fn a_game_with_two_beetles_is_not_sound() {
    let mut game = Game::new();
    kabuto_explosion::kabuto::setup(&mut game.store);
    assert!(!game.is_sound());
}

#[test]
fn a_game_whose_beetle_is_an_enemy_is_not_sound() {
    let mut game = Game::new();
    game.store.attach(Entity { index: 4 }, Component::Enemy(Enemy { lifetime: 0 }));
    assert!(!game.is_sound());
}

#[test]
fn an_idle_tick_changes_nothing_at_the_start() {
    let mut game = Game::new();
    let before: Vec<Option<Slot>> = (0..5).map(|index| game.store.get(Entity { index })).collect();
    assert_eq!(game.tick(&Input::idle()), quiet());
    let after: Vec<Option<Slot>> = (0..5).map(|index| game.store.get(Entity { index })).collect();
    assert_eq!(before, after);
    assert_eq!(game.store.len(), 5);
    assert_eq!(game.scoreboard.value(), 0);
    assert!(game.is_sound());
}

#[test]
fn a_tick_steers_the_beetle() {
    let mut game = Game::new();
    game.tick(&Input { right: true, ..Input::idle() });
    assert_eq!(place_of(&game, Entity { index: 4 }), v(30_000, -1_211_400));
    game.tick(&Input { a: true, ..Input::idle() });
    game.tick(&Input { left: true, ..Input::idle() });
    assert_eq!(place_of(&game, Entity { index: 4 }), v(-30_000, -1_211_400));
}

#[test]
fn the_beetle_stays_between_the_bounds_whatever_the_player_does() {
    let mut game = Game::new();
    for _ in 0..300 {
        game.tick(&Input { left: true, ..Input::idle() });
        let x = place_of(&game, Entity { index: 4 }).x;
        assert!(-2_133_000 <= x && x <= 2_133_000);
    }
    assert_eq!(place_of(&game, Entity { index: 4 }).x, -2_133_000);
    for _ in 0..300 {
        game.tick(&Input { d: true, ..Input::idle() });
        let x = place_of(&game, Entity { index: 4 }).x;
        assert!(-2_133_000 <= x && x <= 2_133_000);
    }
    assert_eq!(place_of(&game, Entity { index: 4 }).x, 2_133_000);
}

#[test]
fn a_tick_fires_a_shot_that_moves_in_the_same_tick() {
    let mut game = Game::new();
    let cues = game.tick(&fire());
    assert_eq!(cues, Cues { hit_sound: false, shot_sound: true });
    assert_eq!(shots(&game), vec![Entity { index: 5 }]);
    assert_eq!(place_of(&game, Entity { index: 5 }), v(0, -1_121_400 + 36_000));
    assert!(game.shot_events.is_empty());
    let cues = game.tick(&Input::idle());
    assert_eq!(cues, quiet());
    assert_eq!(place_of(&game, Entity { index: 5 }), v(0, -1_121_400 + 72_000));
}

#[test]
fn a_shot_is_fired_from_where_the_beetle_has_moved_to() {
    let mut game = Game::new();
    game.tick(&Input { right: true, space_released: true, ..Input::idle() });
    assert_eq!(place_of(&game, Entity { index: 5 }), v(30_000, -1_121_400 + 36_000));
}

#[test]
fn a_shot_that_misses_flies_on() {
    let mut game = Game::new();
    game.tick(&fire());
    for _ in 0..200 {
        game.tick(&Input::idle());
    }
    assert_eq!(shots(&game), vec![Entity { index: 5 }]);
    assert_eq!(place_of(&game, Entity { index: 5 }), v(0, -1_121_400 + 201 * 36_000));
}

#[test]
fn an_enemy_enters_on_the_120th_tick_and_every_120_ticks_after() {
    let mut game = Game::new();
    for tick in 1..=480usize {
        game.tick(&Input::idle());
        assert_eq!(game.store.len(), 5 + tick / 120);
    }
}

#[test]
fn an_enemy_that_has_entered_moves_in_the_same_tick() {
    let mut game = Game::new();
    for _ in 0..120 {
        game.tick(&Input::idle());
    }
    let found = enemies(&game);
    assert_eq!(found, vec![Entity { index: 5 }]);
    let slot = game.store.get(found[0]).unwrap();
    assert_eq!(slot.enemy, Some(Enemy { lifetime: 1 }));
    assert_eq!(slot.velocity, Some(Velocity(v(24_000, -1))));
    assert_eq!(slot.transform.unwrap().translation, v(-2_280_000, 921_599));
}

#[test]
fn an_enemy_crosses_the_screen_and_turns_at_the_right_wall() {
    let mut game = Game::new();
    let e = game.spawn_enemy();
    let mut turned_at = None;
    for tick in 1..=400 {
        game.tick(&Input::idle());
        if !game.store.contains(e) {
            break;
        }
        let speed = game.store.get(e).unwrap().velocity.unwrap().0;
        if speed.x < 0 && turned_at.is_none() {
            turned_at = Some(tick);
            assert_eq!(speed.x, -24_000);
            let x = place_of(&game, e).x;
            // It has just begun to overlap the right wall.
            assert!(x + 90_000 > 2_304_000 - 90_000);
            assert!(x + 90_000 - 24_000 <= 2_304_000 - 90_000);
        }
    }
    // From the left edge to the inner face of the right wall, less its own width.
    assert_eq!(turned_at, Some((4_608_000 - 180_000) / 24_000 + 1));
}

#[test]
fn a_falling_enemy_falls_faster_with_every_tick() {
    let mut game = Game::new();
    let e = enemy_above_the_beetle(&mut game, 1_000_000);
    let mut last = 0;
    for tick in 1..=80i64 {
        game.tick(&Input::idle());
        let now = game.store.get(e).unwrap().velocity.unwrap().0.y;
        assert!(now < last);
        assert_eq!(now, -tick * (tick + 1) / 2);
        last = now;
    }
}

#[test]
fn a_shot_destroys_the_enemy_above_within_ten_ticks() {
    let mut game = Game::new();
    let enemy = enemy_above_the_beetle(&mut game, -941_400);
    assert_eq!(game.scoreboard.value(), 0);
    assert_eq!(enemies(&game), vec![enemy]);
    let mut hit_sounds = 0;
    let mut shot_sounds = 0;
    let mut hit_at = None;
    for tick in 1..=10 {
        let input = if tick == 1 { fire() } else { Input::idle() };
        let cues = game.tick(&input);
        if cues.hit_sound {
            hit_sounds += 1;
            hit_at = Some(tick);
            assert_eq!(game.scoreboard.value(), 100);
            assert!(!game.store.contains(enemy));
        }
        if cues.shot_sound {
            shot_sounds += 1;
        }
        assert!(game.is_sound());
    }
    assert_eq!(hit_at, Some(3));
    assert_eq!(game.scoreboard.value(), 100);
    assert!(enemies(&game).is_empty());
    assert_eq!(hit_sounds, 1);
    assert_eq!(shot_sounds, 1);
    assert!(game.collision_events.is_empty());
    // The shot itself flies on.
    assert_eq!(shots(&game).len(), 1);
}

#[test]
fn two_enemies_struck_in_one_tick_score_twice_with_one_sound() {
    let mut game = Game::new();
    let a = enemy_above_the_beetle(&mut game, -941_400);
    let b = enemy_above_the_beetle(&mut game, -941_400);
    let mut sounds = 0;
    for tick in 1..=10 {
        let input = if tick == 1 { fire() } else { Input::idle() };
        if game.tick(&input).hit_sound {
            sounds += 1;
        }
    }
    assert_eq!(game.scoreboard.value(), 200);
    assert_eq!(sounds, 1);
    assert!(!game.store.contains(a));
    assert!(!game.store.contains(b));
}

#[test]
fn pending_events_are_answered_by_the_next_tick() {
    let mut game = Game::new();
    game.collision_events.send(kabuto_explosion::components::CollisionEvent);
    game.shot_events.send(kabuto_explosion::components::ShotEvent);
    assert_eq!(game.tick(&Input::idle()), Cues { hit_sound: true, shot_sound: true });
    assert_eq!(game.tick(&Input::idle()), quiet());
}

#[test]
fn spawn_enemy_lets_an_enemy_enter_at_once() {
    let mut game = Game::new();
    let e = game.spawn_enemy();
    assert_eq!(e, Entity { index: 5 });
    assert_eq!(enemies(&game), vec![e]);
    assert_eq!(place_of(&game, e), v(-2_304_000, 921_600));
    assert!(game.is_sound());
}

#[test]
fn advance_makes_the_ticks_that_are_due() {
    let mut game = Game::new();
    assert_eq!(game.advance(10_000_000, &Input { right: true, ..Input::idle() }), vec![]);
    assert_eq!(place_of(&game, Entity { index: 4 }).x, 0);
    assert_eq!(game.advance(10_000_000, &Input { right: true, ..Input::idle() }), vec![quiet()]);
    assert_eq!(place_of(&game, Entity { index: 4 }).x, 30_000);
    let cues = game.advance(50_000_000, &Input { right: true, ..Input::idle() });
    assert_eq!(cues, vec![quiet(), quiet(), quiet()]);
    assert_eq!(place_of(&game, Entity { index: 4 }).x, 120_000);
}

#[test]
fn advance_fires_one_shot_for_one_release() {
    let mut game = Game::new();
    let cues = game.advance(50_000_000, &fire());
    assert_eq!(
        cues,
        vec![Cues { hit_sound: false, shot_sound: true }, quiet(), quiet()]
    );
    assert_eq!(shots(&game).len(), 1);
    assert_eq!(place_of(&game, Entity { index: 5 }), v(0, -1_121_400 + 3 * 36_000));
}

#[test]
fn advance_over_two_seconds_lets_one_enemy_enter() {
    let mut game = Game::new();
    let cues = game.advance(2_000_000_000, &Input::idle());
    assert_eq!(cues.len(), 120);
    assert_eq!(enemies(&game).len(), 1);
    let mut by_frames = Game::new();
    let mut ticks = 0;
    for _ in 0..480 {
        ticks += by_frames.advance(4_166_667, &Input::idle()).len();
    }
    assert_eq!(ticks, 120);
    assert_eq!(enemies(&by_frames).len(), 1);
    assert_eq!(
        by_frames.store.get(Entity { index: 5 }),
        game.store.get(Entity { index: 5 })
    );
}
