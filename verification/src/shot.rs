//! The shots: how one is fired, and what it does to the enemy that it meets.

use vstd::prelude::*;
use crate::collision::{collide, overlaps};
use crate::components::{
    CollisionEvent,
    Component,
    ScoreBoard,
    Shot,
    ShotEvent,
    Transform,
    Vec2,
    Velocity,
};
use crate::events::Events;
use crate::input::Input;
use crate::kabuto::{
    find_kabuto,
    has_one_kabuto,
    kabuto_kinds,
    kabuto_transform,
    lemma_kabuto_kinds,
    lemma_one_kabuto,
    KABUTO_SIZE,
};
use crate::store::{lemma_matching_same, swept, Entity, EntityStore, Slot};
use crate::units::{clamp_i64, clamp_usize, sat_add, UNIT, UNIT_PER_SECOND};

verus! {

/// The speed of a shot, straight up.
pub const SHOT_SPEED: i64 = 600 * UNIT_PER_SECOND;

/// The width and the height of a shot.
pub const SHOT_SIZE: i64 = 5 * UNIT;

/// The points that one destroyed enemy is worth.
pub const ENEMY_SCORE: usize = 100;

/// The slot of a shot that a beetle at `kabuto` has just fired: one beetle's
/// height above the beetle's centre, moving straight up.
pub open spec fn fired_from(kabuto: Transform) -> Slot {
    Slot {
        transform: Some(
            Transform {
                translation: Vec2 {
                    x: kabuto.translation.x,
                    y: clamp_i64(kabuto.translation.y + KABUTO_SIZE) as i64,
                },
                scale: Vec2 { x: SHOT_SIZE, y: SHOT_SIZE },
            },
        ),
        velocity: Some(Velocity(Vec2 { x: 0, y: SHOT_SPEED })),
        shot: true,
        ..Slot::bare()
    }
}

/// Whether the slot is that of a shot: an existing entity with a place that
/// carries the shot's mark.
pub open spec fn is_shot(slot: Slot) -> bool {
    slot.alive && slot.shot && slot.transform is Some
}

/// Whether the slot is that of something a shot can strike: an existing
/// entity with a place that is open to shots.
pub open spec fn is_target(slot: Slot) -> bool {
    slot.alive && slot.shot_collider && slot.transform is Some
}

/// Whether the shot in slot `i` strikes an enemy in slot `j`: the one is a
/// shot, the other is open to shots and an enemy, and their boxes overlap.
/// Something open to shots that is no enemy is not struck.
pub open spec fn strikes(slots: Seq<Slot>, i: int, j: int) -> bool {
    &&& is_shot(slots[i])
    &&& is_target(slots[j])
    &&& slots[j].enemy is Some
    &&& overlaps(
        slots[i].transform.unwrap().translation,
        slots[i].transform.unwrap().scale,
        slots[j].transform.unwrap().translation,
        slots[j].transform.unwrap().scale,
    )
}

/// How many of the first `n` slots the shot in slot `i` strikes.
pub open spec fn strikes_of(slots: Seq<Slot>, i: int, n: nat) -> nat
    decreases n,
{
    if n == 0 {
        0
    } else {
        strikes_of(slots, i, (n - 1) as nat) + if strikes(slots, i, n - 1) {
            1nat
        } else {
            0nat
        }
    }
}

/// How many strikes the shots in the first `m` slots make in all.
pub open spec fn strikes_by(slots: Seq<Slot>, m: nat) -> nat
    decreases m,
{
    if m == 0 {
        0
    } else {
        strikes_by(slots, (m - 1) as nat) + strikes_of(slots, m - 1, slots.len())
    }
}

/// How many strikes there are in `slots`: the pairs of a shot and an enemy
/// that it strikes.
pub open spec fn strike_count(slots: Seq<Slot>) -> nat {
    strikes_by(slots, slots.len())
}

/// Whether one of the shots in the first `m` slots strikes slot `j`.
pub open spec fn struck_within(slots: Seq<Slot>, j: int, m: int) -> bool {
    exists|i: int| 0 <= i < m && #[trigger] strikes(slots, i, j)
}

/// Whether some shot strikes slot `j`.
pub open spec fn struck(slots: Seq<Slot>, j: int) -> bool {
    struck_within(slots, j, slots.len() as int)
}

/// The slot, marked for removal if `hit` holds.
pub open spec fn marked_if(slot: Slot, hit: bool) -> Slot {
    if hit {
        Slot { doomed: true, ..slot }
    } else {
        slot
    }
}

/// The slots after the strikes: every enemy that a shot struck is marked for
/// removal, and nothing else has changed.
pub open spec fn after_strikes(slots: Seq<Slot>) -> Seq<Slot> {
    Seq::new(slots.len(), |j: int| marked_if(slots[j], struck(slots, j)))
}

/// `count` collision events.
pub open spec fn collisions(count: nat) -> Seq<CollisionEvent> {
    Seq::new(count, |k: int| CollisionEvent)
}

/// Makes the shot that a beetle at `kabuto_transform` fires.
pub fn setup_shot(store: &mut EntityStore, kabuto_transform: &Transform) -> (entity: Entity)
    ensures
        entity.index == old(store)@.len(),
        final(store)@ == old(store)@.push(fired_from(*kabuto_transform)),
{
    let entity = store.create();
    store.attach(entity, Component::Shot(Shot));
    store.attach(entity, Component::Velocity(Velocity(Vec2 { x: 0, y: SHOT_SPEED })));
    store.attach(
        entity,
        Component::Transform(
            Transform {
                translation: Vec2 {
                    x: kabuto_transform.translation.x,
                    y: sat_add(kabuto_transform.translation.y, KABUTO_SIZE),
                },
                scale: Vec2 { x: SHOT_SIZE, y: SHOT_SIZE },
            },
        ),
    );
    assert(store@ =~= old(store)@.push(fired_from(*kabuto_transform)));
    entity
}

/// Fires a shot from the beetle if the player asks for one, and says so with
/// an event.
pub fn shoot(input: &Input, shot_events: &mut Events<ShotEvent>, store: &mut EntityStore)
    requires
        has_one_kabuto(old(store)@),
    ensures
        input.fires() ==> final(store)@ == old(store)@.push(
            fired_from(kabuto_transform(old(store)@)),
        ) && final(shot_events)@ == old(shot_events)@.push(ShotEvent),
        !input.fires() ==> final(store)@ == old(store)@ && final(shot_events)@ == old(
            shot_events,
        )@,
        has_one_kabuto(final(store)@),
{
    let ghost before = store@;
    proof {
        store.lemma_bounded();
        lemma_one_kabuto(before);
    }
    let entity = find_kabuto(store).unwrap();
    let place = store.get(entity).unwrap().transform.unwrap();
    if input.fires() {
        setup_shot(store, &place);
        shot_events.send(ShotEvent);
        proof {
            let after = store@;
            assert forall|i: int| 0 <= i < before.len() implies (#[trigger] before[i]).selected(
                kabuto_kinds(),
            ) == (#[trigger] after[i]).selected(kabuto_kinds()) by {}
            lemma_matching_same(before, after, kabuto_kinds(), before.len());
            lemma_kabuto_kinds(after[before.len() as int]);
        }
    }
}

/// Lets every shot strike the enemies that it overlaps: each strike sends a
/// collision event, marks the enemy for removal and scores.
pub fn shot_enemy_collision(
    store: &mut EntityStore,
    collision_events: &mut Events<CollisionEvent>,
    scoreboard: &mut ScoreBoard,
)
    ensures
        final(store)@ == after_strikes(old(store)@),
        final(collision_events)@ == old(collision_events)@ + collisions(
            strike_count(old(store)@),
        ),
        final(scoreboard).score == clamp_usize(
            old(scoreboard).score + ENEMY_SCORE * strike_count(old(store)@),
        ),
{
    let ghost before = store@;
    let ghost events_before = collision_events@;
    let ghost score_before = scoreboard.score;
    let n = store.len();
    let mut i: usize = 0;
    assert(collision_events@ =~= events_before + collisions(0));
    while i < n
        invariant
            i <= n,
            n == before.len(),
            store@.len() == n,
            forall|j: int|
                0 <= j < n ==> #[trigger] store@[j] == marked_if(
                    before[j],
                    struck_within(before, j, i as int),
                ),
            collision_events@ == events_before + collisions(strikes_by(before, i as nat)),
            scoreboard.score == clamp_usize(
                score_before + ENEMY_SCORE * strikes_by(before, i as nat),
            ),
        decreases n - i,
    {
        let ghost count = strikes_by(before, i as nat);
        assert(store@[i as int] == marked_if(before[i as int], struck_within(before, i as int, i as int)));
        match store.get(Entity { index: i }) {
            Some(Slot { shot: true, transform: Some(shot), .. }) => {
                let mut j: usize = 0;
                while j < n
                    invariant
                        j <= n,
                        i < n,
                        n == before.len(),
                        store@.len() == n,
                        is_shot(before[i as int]),
                        shot == before[i as int].transform.unwrap(),
                        count == strikes_by(before, i as nat),
                        forall|k: int|
                            0 <= k < j ==> #[trigger] store@[k] == marked_if(
                                before[k],
                                struck_within(before, k, i + 1),
                            ),
                        forall|k: int|
                            j <= k < n ==> #[trigger] store@[k] == marked_if(
                                before[k],
                                struck_within(before, k, i as int),
                            ),
                        collision_events@ == events_before + collisions(
                            count + strikes_of(before, i as int, j as nat),
                        ),
                        scoreboard.score == clamp_usize(
                            score_before + ENEMY_SCORE * (count + strikes_of(
                                before,
                                i as int,
                                j as nat,
                            )),
                        ),
                    decreases n - j,
                {
                    let ghost done = strikes_of(before, i as int, j as nat);
                    let target = Entity { index: j };
                    assert(store@[j as int] == marked_if(
                        before[j as int],
                        struck_within(before, j as int, i as int),
                    ));
                    let mut hit = false;
                    match store.get(target) {
                        Some(Slot { shot_collider: true, transform: Some(place), enemy, .. }) => {
                            let collision = collide(
                                shot.translation,
                                shot.scale,
                                place.translation,
                                place.scale,
                            );
                            if collision.is_some() && enemy.is_some() {
                                hit = true;
                            }
                        },
                        _ => {},
                    }
                    assert(hit == strikes(before, i as int, j as int));
                    if hit {
                        collision_events.send(CollisionEvent);
                        store.destroy(target);
                        scoreboard.add(ENEMY_SCORE);
                        assert(collision_events@ =~= events_before + collisions(count + done + 1));
                        assert(ENEMY_SCORE * (count + done + 1) == ENEMY_SCORE * (count + done)
                            + ENEMY_SCORE) by (nonlinear_arith);
                        assert(ENEMY_SCORE * (count + done) >= 0) by (nonlinear_arith);
                    }
                    assert(struck_within(before, j as int, i + 1) == (struck_within(
                        before,
                        j as int,
                        i as int,
                    ) || hit));
                    j += 1;
                }
            },
            _ => {
                proof {
                    assert(!is_shot(before[i as int]));
                    assert forall|k: int| 0 <= k < n implies struck_within(before, k, i + 1)
                        == struck_within(before, k, i as int) by {
                        assert(!strikes(before, i as int, k));
                    }
                    lemma_strikes_of_none(before, i as int, n as nat);
                }
            },
        }
        i += 1;
    }
    assert(store@ =~= after_strikes(before));
}

/// A shot that strikes none of the first `n` slots has no strike among them.
pub proof fn lemma_strikes_of_none(slots: Seq<Slot>, i: int, n: nat)
    requires
        forall|j: int| 0 <= j < n ==> !#[trigger] strikes(slots, i, j),
    ensures
        strikes_of(slots, i, n) == 0,
    decreases n,
{
    if n > 0 {
        lemma_strikes_of_none(slots, i, (n - 1) as nat);
    }
}

/// A shot that strikes slot `j` and no other of the first `n` slots has one
/// strike among them if `j` is one of them, and none if it is not.
pub proof fn lemma_strikes_of_one(slots: Seq<Slot>, i: int, j: int, n: nat)
    requires
        0 <= j,
        strikes(slots, i, j),
        forall|k: int| 0 <= k < n && k != j ==> !#[trigger] strikes(slots, i, k),
    ensures
        strikes_of(slots, i, n) == if j < n {
            1nat
        } else {
            0nat
        },
    decreases n,
{
    if n > 0 {
        lemma_strikes_of_one(slots, i, j, (n - 1) as nat);
    }
}

/// Where the shot in slot `i` strikes the enemy in slot `j` and nothing else
/// is struck by anything, the first `m` slots make one strike if `i` is among
/// them, and none if it is not.
pub proof fn lemma_strikes_by_one(slots: Seq<Slot>, i: int, j: int, m: nat)
    requires
        0 <= i,
        0 <= j < slots.len(),
        m <= slots.len(),
        strikes(slots, i, j),
        forall|a: int, b: int|
            0 <= a < slots.len() && 0 <= b < slots.len() && #[trigger] strikes(slots, a, b) ==> a
                == i && b == j,
    ensures
        strikes_by(slots, m) == if i < m {
            1nat
        } else {
            0nat
        },
    decreases m,
{
    if m > 0 {
        lemma_strikes_by_one(slots, i, j, (m - 1) as nat);
        if m - 1 == i {
            lemma_strikes_of_one(slots, i, j, slots.len());
        } else {
            lemma_strikes_of_none(slots, m - 1, slots.len());
        }
    }
}

/// One shot that overlaps one enemy, with no other strike in the store,
/// makes exactly one strike: that enemy is marked and is gone when the tick
/// ends, and every other slot stays as it is.
pub proof fn lemma_single_strike(slots: Seq<Slot>, i: int, j: int)
    requires
        0 <= i < slots.len(),
        0 <= j < slots.len(),
        strikes(slots, i, j),
        forall|a: int, b: int|
            0 <= a < slots.len() && 0 <= b < slots.len() && #[trigger] strikes(slots, a, b) ==> a
                == i && b == j,
    ensures
        strike_count(slots) == 1,
        after_strikes(slots) == slots.update(j, Slot { doomed: true, ..slots[j] }),
        swept(after_strikes(slots))[j] == Slot::vacant(),
        forall|k: int|
            0 <= k < slots.len() && k != j ==> #[trigger] swept(after_strikes(slots))[k]
                == slots[k].swept(),
{
    lemma_strikes_by_one(slots, i, j, slots.len());
    assert(struck(slots, j));
    assert forall|k: int| 0 <= k < slots.len() && k != j implies !struck(slots, k) by {}
    assert(after_strikes(slots) =~= slots.update(j, Slot { doomed: true, ..slots[j] }));
}

/// Answers the shots fired in this tick: tells whether the sound of a shot is
/// to be played, once however many were fired, and clears the events.
pub fn play_shot_sound(shot_events: &mut Events<ShotEvent>) -> (play: bool)
    ensures
        play == (old(shot_events)@.len() > 0),
        final(shot_events)@ == Seq::<ShotEvent>::empty(),
{
    shot_events.react()
}

} // verus!
