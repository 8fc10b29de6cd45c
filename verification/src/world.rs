//! The screen, its four walls, and the motion of whatever has a speed.

use vstd::prelude::*;
use crate::components::{BoundCollider, Component, Transform, Vec2, Velocity};
use crate::store::{Entity, EntityStore, Slot};
use crate::units::{clamp_i64, sat_add, UNIT};

verus! {

/// The width of the screen.
pub const SCREEN_WIDTH: i64 = 1280 * UNIT;

/// The height of the screen.
pub const SCREEN_HEIGHT: i64 = 768 * UNIT;

/// The left edge of the screen, half its width left of the centre.
pub const LEFT_WALL: i64 = -640 * UNIT;

/// The right edge of the screen, half its width right of the centre.
pub const RIGHT_WALL: i64 = 640 * UNIT;

/// The upper edge of the screen, half its height above the centre.
pub const TOP_WALL: i64 = 384 * UNIT;

/// The lower edge of the screen, half its height below the centre.
pub const BOTTOM_WALL: i64 = -384 * UNIT;

/// How thick a wall is.
pub const WALL_THICKNESS: i64 = 50 * UNIT;

/// One of the four walls.
#[derive(Clone, Copy, Debug, PartialEq, Eq, Structural)]
pub enum WallLocation {
    Left,
    Right,
    Top,
    Bottom,
}

impl WallLocation {
    /// The centre of the wall: on the edge of the screen, half-way along it.
    pub open spec fn spec_position(&self) -> Vec2 {
        match self {
            WallLocation::Left => Vec2 { x: LEFT_WALL, y: 0 },
            WallLocation::Right => Vec2 { x: RIGHT_WALL, y: 0 },
            WallLocation::Top => Vec2 { x: 0, y: TOP_WALL },
            WallLocation::Bottom => Vec2 { x: 0, y: BOTTOM_WALL },
        }
    }

    /// The width and height of the wall: as thick as a wall is, and longer
    /// than the edge by that thickness, so that the corners are closed.
    pub open spec fn spec_size(&self) -> Vec2 {
        match self {
            WallLocation::Left | WallLocation::Right => Vec2 {
                x: WALL_THICKNESS,
                y: (SCREEN_HEIGHT + WALL_THICKNESS) as i64,
            },
            WallLocation::Bottom | WallLocation::Top => Vec2 {
                x: (SCREEN_WIDTH + WALL_THICKNESS) as i64,
                y: WALL_THICKNESS,
            },
        }
    }

    /// The centre of the wall.
    #[verifier::when_used_as_spec(spec_position)]
    pub fn position(&self) -> (at: Vec2)
        ensures
            at == self.spec_position(),
    {
        match self {
            WallLocation::Left => Vec2 { x: LEFT_WALL, y: 0 },
            WallLocation::Right => Vec2 { x: RIGHT_WALL, y: 0 },
            WallLocation::Top => Vec2 { x: 0, y: TOP_WALL },
            WallLocation::Bottom => Vec2 { x: 0, y: BOTTOM_WALL },
        }
    }

    /// The width and height of the wall.
    #[verifier::when_used_as_spec(spec_size)]
    pub fn size(&self) -> (extent: Vec2)
        ensures
            extent == self.spec_size(),
    {
        match self {
            WallLocation::Left | WallLocation::Right => Vec2 {
                x: WALL_THICKNESS,
                y: SCREEN_HEIGHT + WALL_THICKNESS,
            },
            WallLocation::Bottom | WallLocation::Top => Vec2 {
                x: SCREEN_WIDTH + WALL_THICKNESS,
                y: WALL_THICKNESS,
            },
        }
    }
}

/// What a wall carries.
#[derive(Clone, Copy, Debug, PartialEq, Eq, Structural)]
pub struct WallBundle {
    pub transform: Transform,
    pub collider: BoundCollider,
}

impl WallBundle {
    /// The wall at `location`.
    pub fn new(location: WallLocation) -> (wall: WallBundle)
        ensures
            wall.transform.translation == location.position(),
            wall.transform.scale == location.size(),
    {
        WallBundle {
            transform: Transform { translation: location.position(), scale: location.size() },
            collider: BoundCollider,
        }
    }
}

/// The slot of an entity that carries `wall` and nothing else.
pub open spec fn wall_slot(wall: WallBundle) -> Slot {
    Slot { transform: Some(wall.transform), bound_collider: true, ..Slot::bare() }
}

/// The slot of the wall at `location`.
pub open spec fn wall_at(location: WallLocation) -> Slot {
    wall_slot(
        WallBundle {
            transform: Transform { translation: location.position(), scale: location.size() },
            collider: BoundCollider,
        },
    )
}

/// Makes an entity that carries `wall`.
pub fn spawn_wall(store: &mut EntityStore, wall: WallBundle) -> (entity: Entity)
    ensures
        entity.index == old(store)@.len(),
        final(store)@ == old(store)@.push(wall_slot(wall)),
{
    let entity = store.create();
    store.attach(entity, Component::Transform(wall.transform));
    store.attach(entity, Component::BoundCollider(wall.collider));
    assert(store@ =~= old(store)@.push(wall_slot(wall)));
    entity
}

/// Builds the four walls: left, right, top, bottom.
pub fn setup(store: &mut EntityStore)
    ensures
        final(store)@ == old(store)@.push(wall_at(WallLocation::Left)).push(
            wall_at(WallLocation::Right),
        ).push(wall_at(WallLocation::Top)).push(wall_at(WallLocation::Bottom)),
{
    spawn_wall(store, WallBundle::new(WallLocation::Left));
    spawn_wall(store, WallBundle::new(WallLocation::Right));
    spawn_wall(store, WallBundle::new(WallLocation::Top));
    spawn_wall(store, WallBundle::new(WallLocation::Bottom));
}

/// The slot one tick of motion later: an existing entity with a place and a
/// speed has moved by its speed, and any other slot stays as it is.
pub open spec fn moved(slot: Slot) -> Slot {
    if slot.alive && slot.transform is Some && slot.velocity is Some {
        let place = slot.transform.unwrap();
        let speed = slot.velocity.unwrap().0;
        Slot {
            transform: Some(
                Transform {
                    translation: Vec2 {
                        x: clamp_i64(place.translation.x + speed.x) as i64,
                        y: clamp_i64(place.translation.y + speed.y) as i64,
                    },
                    scale: place.scale,
                },
            ),
            ..slot
        }
    } else {
        slot
    }
}

/// Moves every entity that has a speed by one tick of that speed.
pub fn apply_velocity(store: &mut EntityStore)
    ensures
        final(store)@ == old(store)@.map_values(|slot: Slot| moved(slot)),
{
    let ghost before = store@;
    let n = store.len();
    let mut i: usize = 0;
    while i < n
        invariant
            i <= n,
            n == before.len(),
            store@.len() == n,
            forall|j: int| 0 <= j < i ==> #[trigger] store@[j] == moved(before[j]),
            forall|j: int| i <= j < n ==> #[trigger] store@[j] == before[j],
        decreases n - i,
    {
        let entity = Entity { index: i };
        match store.get(entity) {
            Some(Slot { transform: Some(place), velocity: Some(Velocity(speed)), .. }) => {
                store.attach(
                    entity,
                    Component::Transform(
                        Transform {
                            translation: Vec2 {
                                x: sat_add(place.translation.x, speed.x),
                                y: sat_add(place.translation.y, speed.y),
                            },
                            scale: place.scale,
                        },
                    ),
                );
            },
            _ => {},
        }
        i += 1;
    }
    assert(store@ =~= before.map_values(|slot: Slot| moved(slot)));
}

} // verus!
