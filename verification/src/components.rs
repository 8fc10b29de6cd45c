//! What an entity can carry: its place and size, its speed, and its roles.

use vstd::prelude::*;

verus! {

/// A pair of coordinates: a point, an extent or a speed.
#[derive(Clone, Copy, Debug, PartialEq, Eq, Structural)]
pub struct Vec2 {
    pub x: i64,
    pub y: i64,
}

/// Where an entity is and how large: the centre of its box and the box's full
/// width and height, in sub-units. The origin is the centre of the screen.
#[derive(Clone, Copy, Debug, PartialEq, Eq, Structural)]
pub struct Transform {
    pub translation: Vec2,
    pub scale: Vec2,
}

/// The speed of an entity that moves by itself, in sub-units per tick.
#[derive(Clone, Copy, Debug, PartialEq, Eq, Structural)]
pub struct Velocity(pub Vec2);

/// The beetle that the player steers.
#[derive(Clone, Copy, Debug, PartialEq, Eq, Structural)]
pub struct Kabuto;

/// A shot that the beetle fired.
#[derive(Clone, Copy, Debug, PartialEq, Eq, Structural)]
pub struct Shot;

/// An enemy, with the number of ticks that it has lived.
#[derive(Clone, Copy, Debug, PartialEq, Eq, Structural)]
pub struct Enemy {
    pub lifetime: u64,
}

/// The score of the running game.
#[derive(Clone, Copy, Debug, PartialEq, Eq, Structural)]
pub struct ScoreBoard {
    pub score: usize,
}

/// Marks an entity that a shot can strike.
#[derive(Clone, Copy, Debug, PartialEq, Eq, Structural)]
pub struct ShotCollider;

/// Marks an entity that takes part in bouncing: a wall, which is bounced off,
/// or an enemy, which bounces.
#[derive(Clone, Copy, Debug, PartialEq, Eq, Structural)]
pub struct BoundCollider;

/// Tells that a shot struck an enemy.
#[derive(Clone, Copy, Debug, PartialEq, Eq, Structural)]
pub struct CollisionEvent;

/// Tells that the beetle fired.
#[derive(Clone, Copy, Debug, PartialEq, Eq, Structural)]
pub struct ShotEvent;

/// The kinds of component.
#[derive(Clone, Copy, Debug, PartialEq, Eq, Structural)]
pub enum ComponentKind {
    Transform,
    Velocity,
    Kabuto,
    Shot,
    Enemy,
    ShotCollider,
    BoundCollider,
}

/// A component, ready to be attached to an entity.
#[derive(Clone, Copy, Debug, PartialEq, Eq, Structural)]
pub enum Component {
    Transform(Transform),
    Velocity(Velocity),
    Kabuto(Kabuto),
    Shot(Shot),
    Enemy(Enemy),
    ShotCollider(ShotCollider),
    BoundCollider(BoundCollider),
}

impl Component {
    /// The kind of this component.
    pub open spec fn spec_kind(&self) -> ComponentKind {
        match self {
            Component::Transform(_) => ComponentKind::Transform,
            Component::Velocity(_) => ComponentKind::Velocity,
            Component::Kabuto(_) => ComponentKind::Kabuto,
            Component::Shot(_) => ComponentKind::Shot,
            Component::Enemy(_) => ComponentKind::Enemy,
            Component::ShotCollider(_) => ComponentKind::ShotCollider,
            Component::BoundCollider(_) => ComponentKind::BoundCollider,
        }
    }

    /// The kind of this component.
    #[verifier::when_used_as_spec(spec_kind)]
    pub fn kind(&self) -> (k: ComponentKind)
        ensures
            k == self.spec_kind(),
    {
        match self {
            Component::Transform(_) => ComponentKind::Transform,
            Component::Velocity(_) => ComponentKind::Velocity,
            Component::Kabuto(_) => ComponentKind::Kabuto,
            Component::Shot(_) => ComponentKind::Shot,
            Component::Enemy(_) => ComponentKind::Enemy,
            Component::ShotCollider(_) => ComponentKind::ShotCollider,
            Component::BoundCollider(_) => ComponentKind::BoundCollider,
        }
    }
}

impl ScoreBoard {
    /// A board that shows no points yet.
    pub fn new() -> (board: ScoreBoard)
        ensures
            board.score == 0,
    {
        ScoreBoard { score: 0 }
    }

    /// The points gained so far.
    pub fn value(&self) -> (v: usize)
        ensures
            v == self.score,
    {
        self.score
    }

    /// Adds `amount` points. The score never falls, and it stops at the
    /// greatest number that it can hold.
    pub fn add(&mut self, amount: usize)
        ensures
            final(self).score == crate::units::clamp_usize(old(self).score + amount),
            final(self).score >= old(self).score,
    {
        self.score = self.score.saturating_add(amount);
    }
}

} // verus!
