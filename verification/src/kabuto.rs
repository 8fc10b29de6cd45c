//! The beetle: where it starts and how the player moves it.

use vstd::prelude::*;
use crate::components::{Component, ComponentKind, Kabuto, Transform, Vec2};
use crate::input::Input;
use crate::store::{
    lemma_matching,
    lemma_matching_same,
    lemma_matching_tail,
    query_of,
    Entity,
    EntityStore,
    Slot,
};
use crate::units::{clamp, clamp_between, clamp_i64, sat_add, UNIT, UNIT_PER_SECOND};
use crate::world::{BOTTOM_WALL, LEFT_WALL, RIGHT_WALL, WALL_THICKNESS};

verus! {

/// The speed at which the beetle moves while a key is held.
pub const KABUTO_SPEED: i64 = 500 * UNIT_PER_SECOND;

/// The width and the height of the beetle.
pub const KABUTO_SIZE: i64 = 25 * UNIT;

/// The room that the beetle keeps from a wall.
pub const KABUTO_PADDING: i64 = 10 * UNIT;

/// The leftmost place of the beetle's centre: the inner face of the left
/// wall, then the padding, then half the beetle.
pub open spec fn spec_left_bound() -> i64 {
    (LEFT_WALL + WALL_THICKNESS / 2 + KABUTO_SIZE / 2 + KABUTO_PADDING) as i64
}

/// The rightmost place of the beetle's centre: the inner face of the right
/// wall, then the padding, then half the beetle.
pub open spec fn spec_right_bound() -> i64 {
    (RIGHT_WALL - WALL_THICKNESS / 2 - KABUTO_SIZE / 2 - KABUTO_PADDING) as i64
}

/// The height of the beetle's centre: above the lower wall by the padding and
/// half the beetle.
pub open spec fn spec_ground() -> i64 {
    (BOTTOM_WALL + WALL_THICKNESS / 2 + KABUTO_SIZE / 2 + KABUTO_PADDING) as i64
}

/// The leftmost place of the beetle's centre.
#[verifier::when_used_as_spec(spec_left_bound)]
pub fn left_bound() -> (bound: i64)
    ensures
        bound == spec_left_bound(),
        bound == -2_133_000,
{
    LEFT_WALL + WALL_THICKNESS / 2 + KABUTO_SIZE / 2 + KABUTO_PADDING
}

/// The rightmost place of the beetle's centre.
#[verifier::when_used_as_spec(spec_right_bound)]
pub fn right_bound() -> (bound: i64)
    ensures
        bound == spec_right_bound(),
        bound == 2_133_000,
{
    RIGHT_WALL - WALL_THICKNESS / 2 - KABUTO_SIZE / 2 - KABUTO_PADDING
}

/// The height of the beetle's centre.
#[verifier::when_used_as_spec(spec_ground)]
pub fn ground() -> (height: i64)
    ensures
        height == spec_ground(),
        height == -1_211_400,
{
    BOTTOM_WALL + WALL_THICKNESS / 2 + KABUTO_SIZE / 2 + KABUTO_PADDING
}

/// The slot of the beetle at the start: in the middle, on the ground.
pub open spec fn starting() -> Slot {
    Slot {
        transform: Some(
            Transform {
                translation: Vec2 { x: 0, y: ground() },
                scale: Vec2 { x: KABUTO_SIZE, y: KABUTO_SIZE },
            },
        ),
        kabuto: true,
        ..Slot::bare()
    }
}

/// Whether the slot is that of a beetle: an existing entity with a place that
/// carries the beetle's mark.
pub open spec fn is_kabuto(slot: Slot) -> bool {
    slot.alive && slot.kabuto && slot.transform is Some
}

/// The kinds by which the beetle is found.
pub open spec fn kabuto_kinds() -> Seq<ComponentKind> {
    seq![ComponentKind::Kabuto, ComponentKind::Transform]
}

/// The beetles in `slots`. A game has exactly one.
pub open spec fn kabutos(slots: Seq<Slot>) -> Seq<Entity> {
    query_of(slots, kabuto_kinds())
}

/// Whether `slots` hold exactly one beetle.
pub open spec fn has_one_kabuto(slots: Seq<Slot>) -> bool {
    kabutos(slots).len() == 1
}

/// The place and size of the one beetle in `slots`.
pub open spec fn kabuto_transform(slots: Seq<Slot>) -> Transform {
    slots[kabutos(slots)[0].index as int].transform.unwrap()
}

/// A slot is found by the beetle's kinds exactly if it is a beetle's.
pub proof fn lemma_kabuto_kinds(slot: Slot)
    ensures
        slot.selected(kabuto_kinds()) == is_kabuto(slot),
{
    let kinds = kabuto_kinds();
    assert(kinds[0] == ComponentKind::Kabuto);
    assert(kinds[1] == ComponentKind::Transform);
    if slot.selected(kinds) {
        assert(slot.has(kinds[0]));
        assert(slot.has(kinds[1]));
    }
}

/// Where exactly one beetle is, its slot is a beetle's and no other slot is.
pub proof fn lemma_one_kabuto(slots: Seq<Slot>)
    requires
        has_one_kabuto(slots),
        slots.len() <= usize::MAX,
    ensures
        kabutos(slots)[0].index < slots.len(),
        is_kabuto(slots[kabutos(slots)[0].index as int]),
        forall|i: int|
            0 <= i < slots.len() && is_kabuto(#[trigger] slots[i]) ==> i == kabutos(slots)[0].index,
{
    let found = kabutos(slots);
    lemma_matching(slots, kabuto_kinds(), slots.len());
    assert(found.contains(found[0]));
    lemma_kabuto_kinds(slots[found[0].index as int]);
    assert forall|i: int| 0 <= i < slots.len() && is_kabuto(#[trigger] slots[i]) implies i
        == found[0].index by {
        lemma_kabuto_kinds(slots[i]);
        let e = Entity { index: i as usize };
        assert(found.contains(e));
        let k = choose|k: int| 0 <= k < found.len() && found[k] == e;
        assert(k == 0);
    }
}

/// Whether `slots` hold exactly one beetle that nothing will remove: it is
/// not marked for removal, and it is no enemy, so that no shot can mark it.
pub open spec fn kabuto_safe(slots: Seq<Slot>) -> bool {
    &&& has_one_kabuto(slots)
    &&& slots[kabutos(slots)[0].index as int].enemy is None
    &&& !slots[kabutos(slots)[0].index as int].doomed
}

/// Whether the step from `before` to `after` leaves the beetles alone: what
/// was a beetle is still one, with the same marks, and nothing else has
/// become one.
pub open spec fn keeps_kabuto(before: Seq<Slot>, after: Seq<Slot>) -> bool {
    &&& before.len() <= after.len()
    &&& forall|i: int|
        0 <= i < before.len() ==> is_kabuto(#[trigger] after[i]) == is_kabuto(before[i])
    &&& forall|i: int|
        0 <= i < before.len() && is_kabuto(before[i]) ==> (#[trigger] after[i]).enemy
            == before[i].enemy && after[i].doomed == before[i].doomed
    &&& forall|i: int| before.len() <= i < after.len() ==> !is_kabuto(#[trigger] after[i])
}

/// A step that leaves the beetles alone keeps the one beetle, and keeps it safe.
pub proof fn lemma_keeps_kabuto(before: Seq<Slot>, after: Seq<Slot>)
    requires
        has_one_kabuto(before),
        keeps_kabuto(before, after),
        after.len() <= usize::MAX,
    ensures
        kabutos(after) == kabutos(before),
        has_one_kabuto(after),
        kabuto_safe(before) ==> kabuto_safe(after),
{
    let kinds = kabuto_kinds();
    assert forall|i: int| 0 <= i < before.len() implies (#[trigger] before[i]).selected(kinds)
        == (#[trigger] after[i]).selected(kinds) by {
        lemma_kabuto_kinds(before[i]);
        lemma_kabuto_kinds(after[i]);
    }
    lemma_matching_same(before, after, kinds, before.len());
    assert forall|i: int| before.len() <= i < after.len() implies !(#[trigger] after[i]).selected(
        kinds,
    ) by {
        lemma_kabuto_kinds(after[i]);
    }
    lemma_matching_tail(after, kinds, before.len(), after.len());
    lemma_one_kabuto(before);
}

/// The slot after the player has steered for one tick: a beetle has moved by
/// its speed in the direction steered, but no further than the bounds; any
/// other slot stays as it is.
pub open spec fn steered(slot: Slot, input: Input) -> Slot {
    if is_kabuto(slot) {
        let place = slot.transform.unwrap();
        let wanted = clamp_i64(place.translation.x + input.spec_direction() * KABUTO_SPEED);
        Slot {
            transform: Some(
                Transform {
                    translation: Vec2 {
                        x: clamp_between(wanted, left_bound() as int, right_bound() as int) as i64,
                        y: place.translation.y,
                    },
                    scale: place.scale,
                },
            ),
            ..slot
        }
    } else {
        slot
    }
}

/// Puts the beetle into the store.
pub fn setup(store: &mut EntityStore) -> (entity: Entity)
    ensures
        entity.index == old(store)@.len(),
        final(store)@ == old(store)@.push(starting()),
{
    let entity = store.create();
    store.attach(entity, Component::Kabuto(Kabuto));
    store.attach(
        entity,
        Component::Transform(
            Transform {
                translation: Vec2 { x: 0, y: ground() },
                scale: Vec2 { x: KABUTO_SIZE, y: KABUTO_SIZE },
            },
        ),
    );
    assert(store@ =~= old(store)@.push(starting()));
    entity
}

/// Finds the beetle. There is an answer exactly if the store holds one
/// beetle, no more and no fewer.
pub fn find_kabuto(store: &EntityStore) -> (found: Option<Entity>)
    ensures
        found is Some <==> has_one_kabuto(store@),
        found is Some ==> found.unwrap() == kabutos(store@)[0],
{
    let kinds = [ComponentKind::Kabuto, ComponentKind::Transform];
    assert(kinds@ =~= kabuto_kinds());
    let found = store.query(kinds.as_slice());
    if found.len() == 1 {
        Some(found[0])
    } else {
        None
    }
}

/// Moves the beetle as the player steers, and keeps it between the bounds.
pub fn move_kabuto(input: &Input, store: &mut EntityStore)
    requires
        has_one_kabuto(old(store)@),
    ensures
        final(store)@ == old(store)@.map_values(|slot: Slot| steered(slot, *input)),
        has_one_kabuto(final(store)@),
        left_bound() <= kabuto_transform(final(store)@).translation.x <= right_bound(),
{
    let ghost before = store@;
    proof {
        store.lemma_bounded();
        lemma_one_kabuto(before);
    }
    let entity = find_kabuto(store).unwrap();
    let place = store.get(entity).unwrap().transform.unwrap();
    let wanted = sat_add(place.translation.x, input.direction() * KABUTO_SPEED);
    store.attach(
        entity,
        Component::Transform(
            Transform {
                translation: Vec2 {
                    x: clamp(wanted, left_bound(), right_bound()),
                    y: place.translation.y,
                },
                scale: place.scale,
            },
        ),
    );
    proof {
        let after = before.map_values(|slot: Slot| steered(slot, *input));
        assert(store@ =~= after);
        assert forall|i: int| 0 <= i < before.len() implies (#[trigger] before[i]).selected(
            kabuto_kinds(),
        ) == (#[trigger] after[i]).selected(kabuto_kinds()) by {
            lemma_kabuto_kinds(before[i]);
            lemma_kabuto_kinds(after[i]);
        }
        lemma_matching_same(before, after, kabuto_kinds(), before.len());
    }
}

} // verus!
