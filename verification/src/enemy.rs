//! The enemies: how one enters, how it falls, and how it bounces off the walls.

use vstd::prelude::*;
use crate::collision::{collide, collision_of, Collision};
use crate::components::{BoundCollider, Component, Enemy, ShotCollider, Transform, Vec2, Velocity};
use crate::store::{Entity, EntityStore, Slot};
use crate::units::{clamp_i64, sat_add, sat_neg, sat_sub_count, UNIT, UNIT_PER_SECOND};
use crate::world::LEFT_WALL;

verus! {

/// The speed at which an enemy enters, towards the right.
pub const ENEMY_SPEED: i64 = 400 * UNIT_PER_SECOND;

/// The width and the height of an enemy.
pub const ENEMY_SIZE: i64 = 50 * UNIT;

/// The height at which an enemy enters: a third of the screen's height above
/// the centre.
pub const ENEMY_HEIGHT: i64 = 256 * UNIT;

/// The slot of an enemy that has just entered: at the left edge, moving
/// right, with no tick lived, open to shots and to the walls.
pub open spec fn entering() -> Slot {
    Slot {
        alive: true,
        doomed: false,
        transform: Some(
            Transform {
                translation: Vec2 { x: LEFT_WALL, y: ENEMY_HEIGHT },
                scale: Vec2 { x: ENEMY_SIZE, y: ENEMY_SIZE },
            },
        ),
        velocity: Some(Velocity(Vec2 { x: ENEMY_SPEED, y: 0 })),
        enemy: Some(Enemy { lifetime: 0 }),
        kabuto: false,
        shot: false,
        shot_collider: true,
        bound_collider: true,
    }
}

/// Whether the slot is that of an enemy in motion: an existing entity that
/// carries the enemy's mark, a speed and a place.
pub open spec fn is_enemy(slot: Slot) -> bool {
    slot.alive && slot.enemy is Some && slot.velocity is Some && slot.transform is Some
}

/// Whether the slot is that of a wall: an existing entity with a place that
/// takes part in bouncing and is no enemy.
pub open spec fn is_wall(slot: Slot) -> bool {
    slot.alive && slot.bound_collider && slot.transform is Some && slot.enemy is None
}

/// The slot of an enemy one tick of gravity later.
///
/// The enemy has lived one tick more. Its speed has gained, downward, as many
/// sub-units per tick as it has lived ticks, and its height has changed by
/// that new speed. Any other slot stays as it is.
pub open spec fn fallen(slot: Slot) -> Slot {
    if is_enemy(slot) {
        let lifetime = if slot.enemy.unwrap().lifetime == u64::MAX {
            u64::MAX
        } else {
            (slot.enemy.unwrap().lifetime + 1) as u64
        };
        let speed = slot.velocity.unwrap().0;
        let place = slot.transform.unwrap();
        let down = clamp_i64(speed.y - lifetime) as i64;
        Slot {
            enemy: Some(Enemy { lifetime }),
            velocity: Some(Velocity(Vec2 { x: speed.x, y: down })),
            transform: Some(
                Transform {
                    translation: Vec2 {
                        x: place.translation.x,
                        y: clamp_i64(place.translation.y + down) as i64,
                    },
                    scale: place.scale,
                },
            ),
            ..slot
        }
    } else {
        slot
    }
}

/// The speed `speed` after the contact `hit`.
///
/// A contact on the left or the right turns the horizontal part round, and
/// one above or below the vertical part, but only while the enemy moves
/// toward the side that it met. No contact, or one with no side, changes
/// nothing.
pub open spec fn rebound(speed: Vec2, hit: Option<Collision>) -> Vec2 {
    match hit {
        Some(Collision::Left) => if speed.x > 0 {
            Vec2 { x: clamp_i64(-speed.x) as i64, y: speed.y }
        } else {
            speed
        },
        Some(Collision::Right) => if speed.x < 0 {
            Vec2 { x: clamp_i64(-speed.x) as i64, y: speed.y }
        } else {
            speed
        },
        Some(Collision::Top) => if speed.y < 0 {
            Vec2 { x: speed.x, y: clamp_i64(-speed.y) as i64 }
        } else {
            speed
        },
        Some(Collision::Bottom) => if speed.y > 0 {
            Vec2 { x: speed.x, y: clamp_i64(-speed.y) as i64 }
        } else {
            speed
        },
        _ => speed,
    }
}

/// The contact of the entity in slot `i` with the one in slot `j`.
pub open spec fn contact(slots: Seq<Slot>, i: int, j: int) -> Option<Collision> {
    collision_of(
        slots[i].transform.unwrap().translation,
        slots[i].transform.unwrap().scale,
        slots[j].transform.unwrap().translation,
        slots[j].transform.unwrap().scale,
    )
}

/// The speed of the enemy in slot `i` after it has met, one after the other,
/// the walls among the first `n` slots.
pub open spec fn speed_after_walls(slots: Seq<Slot>, i: int, n: nat) -> Vec2
    decreases n,
{
    if n == 0 {
        slots[i].velocity.unwrap().0
    } else {
        let speed = speed_after_walls(slots, i, (n - 1) as nat);
        if is_wall(slots[n - 1]) {
            rebound(speed, contact(slots, i, n - 1))
        } else {
            speed
        }
    }
}

/// Slot `i` after the bouncing: an enemy has the speed that all the walls
/// left it, and nothing else has changed.
pub open spec fn bounced_slot(slots: Seq<Slot>, i: int) -> Slot {
    if is_enemy(slots[i]) {
        Slot { velocity: Some(Velocity(speed_after_walls(slots, i, slots.len()))), ..slots[i] }
    } else {
        slots[i]
    }
}

/// The slots after every enemy has bounced off the walls that it met.
pub open spec fn bounced(slots: Seq<Slot>) -> Seq<Slot> {
    Seq::new(slots.len(), |i: int| bounced_slot(slots, i))
}

/// Whether the entity in slot `i` overlaps none of the walls.
pub open spec fn clear_of_walls(slots: Seq<Slot>, i: int) -> bool {
    forall|j: int| 0 <= j < slots.len() && is_wall(slots[j]) ==> #[trigger] contact(slots, i, j) is None
}

/// The vertical speed that the slot holds.
pub open spec fn speed_y(slot: Slot) -> int {
    slot.velocity.unwrap().0.y as int
}

/// An enemy that overlaps no wall keeps its speed through the bouncing.
pub proof fn lemma_clear_of_walls(slots: Seq<Slot>, i: int, n: nat)
    requires
        clear_of_walls(slots, i),
        n <= slots.len(),
    ensures
        speed_after_walls(slots, i, n) == slots[i].velocity.unwrap().0,
    decreases n,
{
    if n > 0 {
        lemma_clear_of_walls(slots, i, (n - 1) as nat);
        if is_wall(slots[n - 1]) {
            assert(contact(slots, i, n - 1) is None);
        }
    }
}

/// Gravity makes an enemy fall faster with every tick: its vertical speed
/// after the tick is lower than before, unless it already was the least speed
/// that can be held. Its time lived never falls, and its horizontal speed
/// stays.
pub proof fn lemma_gravity_accumulates(slot: Slot)
    requires
        is_enemy(slot),
    ensures
        is_enemy(fallen(slot)),
        speed_y(slot) > i64::MIN ==> speed_y(fallen(slot)) < speed_y(slot),
        speed_y(fallen(slot)) <= speed_y(slot),
        fallen(slot).enemy.unwrap().lifetime >= slot.enemy.unwrap().lifetime,
        fallen(slot).velocity.unwrap().0.x == slot.velocity.unwrap().0.x,
{
}

/// A contact turns an enemy that moves toward the side it met, so that it
/// moves away from it; the other part of its speed stays.
pub proof fn lemma_rebound_turns_away(speed: Vec2, hit: Collision)
    ensures
        hit == Collision::Left && speed.x > 0 ==> rebound(speed, Some(hit)) == (Vec2 {
            x: (-speed.x) as i64,
            y: speed.y,
        }),
        hit == Collision::Right && speed.x < 0 ==> rebound(speed, Some(hit)).x > 0 && rebound(
            speed,
            Some(hit),
        ).y == speed.y,
        hit == Collision::Right && speed.x < 0 && speed.x > i64::MIN ==> rebound(
            speed,
            Some(hit),
        ).x == -speed.x,
        hit == Collision::Top && speed.y < 0 ==> rebound(speed, Some(hit)).y > 0 && rebound(
            speed,
            Some(hit),
        ).x == speed.x,
        hit == Collision::Top && speed.y < 0 && speed.y > i64::MIN ==> rebound(speed, Some(hit)).y
            == -speed.y,
        hit == Collision::Bottom && speed.y > 0 ==> rebound(speed, Some(hit)) == (Vec2 {
            x: speed.x,
            y: (-speed.y) as i64,
        }),
{
}

/// A contact turns an enemy once: while the same contact lasts, the speed
/// that it left is not turned again.
pub proof fn lemma_rebound_once(speed: Vec2, hit: Option<Collision>)
    ensures
        rebound(rebound(speed, hit), hit) == rebound(speed, hit),
{
}

/// Lets a new enemy enter.
pub fn setup(store: &mut EntityStore) -> (entity: Entity)
    ensures
        entity.index == old(store)@.len(),
        final(store)@ == old(store)@.push(entering()),
{
    let entity = store.create();
    store.attach(entity, Component::Enemy(Enemy { lifetime: 0 }));
    store.attach(entity, Component::ShotCollider(ShotCollider));
    store.attach(entity, Component::BoundCollider(BoundCollider));
    store.attach(entity, Component::Velocity(Velocity(Vec2 { x: ENEMY_SPEED, y: 0 })));
    store.attach(
        entity,
        Component::Transform(
            Transform {
                translation: Vec2 { x: LEFT_WALL, y: ENEMY_HEIGHT },
                scale: Vec2 { x: ENEMY_SIZE, y: ENEMY_SIZE },
            },
        ),
    );
    assert(store@ =~= old(store)@.push(entering()));
    entity
}

/// Lets gravity act on every enemy for one tick.
pub fn apply_enemy_gravity(store: &mut EntityStore)
    ensures
        final(store)@ == old(store)@.map_values(|slot: Slot| fallen(slot)),
{
    let ghost before = store@;
    let n = store.len();
    let mut i: usize = 0;
    while i < n
        invariant
            i <= n,
            n == before.len(),
            store@.len() == n,
            forall|j: int| 0 <= j < i ==> #[trigger] store@[j] == fallen(before[j]),
            forall|j: int| i <= j < n ==> #[trigger] store@[j] == before[j],
        decreases n - i,
    {
        let entity = Entity { index: i };
        match store.get(entity) {
            Some(Slot { enemy: Some(enemy), velocity: Some(Velocity(speed)), transform: Some(place), .. }) => {
                let lifetime = enemy.lifetime.saturating_add(1);
                let down = sat_sub_count(speed.y, lifetime);
                store.attach(entity, Component::Enemy(Enemy { lifetime }));
                store.attach(entity, Component::Velocity(Velocity(Vec2 { x: speed.x, y: down })));
                store.attach(
                    entity,
                    Component::Transform(
                        Transform {
                            translation: Vec2 {
                                x: place.translation.x,
                                y: sat_add(place.translation.y, down),
                            },
                            scale: place.scale,
                        },
                    ),
                );
            },
            _ => {},
        }
        i += 1;
    }
    assert(store@ =~= before.map_values(|slot: Slot| fallen(slot)));
}

/// Turns the speed `speed` round as the contact `hit` asks.
pub fn bounce(speed: Vec2, hit: Option<Collision>) -> (after: Vec2)
    ensures
        after == rebound(speed, hit),
{
    let mut reflect_x = false;
    let mut reflect_y = false;
    match hit {
        Some(Collision::Left) => {
            reflect_x = speed.x > 0;
        },
        Some(Collision::Right) => {
            reflect_x = speed.x < 0;
        },
        Some(Collision::Top) => {
            reflect_y = speed.y < 0;
        },
        Some(Collision::Bottom) => {
            reflect_y = speed.y > 0;
        },
        Some(Collision::Inside) => {},
        None => {},
    }
    let mut after = speed;
    if reflect_x {
        after.x = sat_neg(after.x);
    }
    if reflect_y {
        after.y = sat_neg(after.y);
    }
    after
}

/// Lets every enemy bounce off the walls that it overlaps.
pub fn enemy_bound_collision(store: &mut EntityStore)
    ensures
        final(store)@ == bounced(old(store)@),
{
    let ghost before = store@;
    let n = store.len();
    let mut i: usize = 0;
    while i < n
        invariant
            i <= n,
            n == before.len(),
            store@.len() == n,
            forall|j: int| 0 <= j < i ==> #[trigger] store@[j] == bounced_slot(before, j),
            forall|j: int| i <= j < n ==> #[trigger] store@[j] == before[j],
        decreases n - i,
    {
        let entity = Entity { index: i };
        match store.get(entity) {
            Some(Slot { enemy: Some(_), velocity: Some(Velocity(start)), transform: Some(place), .. }) => {
                let mut speed = start;
                let mut j: usize = 0;
                while j < n
                    invariant
                        j <= n,
                        i < n,
                        n == before.len(),
                        store@.len() == n,
                        is_enemy(before[i as int]),
                        place == before[i as int].transform.unwrap(),
                        speed == speed_after_walls(before, i as int, j as nat),
                        forall|k: int| 0 <= k < i ==> #[trigger] store@[k] == bounced_slot(before, k),
                        forall|k: int| i <= k < n ==> #[trigger] store@[k] == before[k],
                    decreases n - j,
                {
                    proof {
                        if j < i {
                            assert(store@[j as int] == bounced_slot(before, j as int));
                        } else {
                            assert(store@[j as int] == before[j as int]);
                        }
                        assert(is_wall(store@[j as int]) == is_wall(before[j as int]));
                        assert(store@[j as int].transform == before[j as int].transform);
                    }
                    match store.get(Entity { index: j }) {
                        Some(Slot { bound_collider: true, enemy: None, transform: Some(wall), .. }) => {
                            let hit = collide(
                                place.translation,
                                place.scale,
                                wall.translation,
                                wall.scale,
                            );
                            speed = bounce(speed, hit);
                        },
                        _ => {},
                    }
                    j += 1;
                }
                store.attach(entity, Component::Velocity(Velocity(speed)));
            },
            _ => {},
        }
        i += 1;
    }
    assert(store@ =~= bounced(before));
}

} // verus!
