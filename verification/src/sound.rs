//! The sound of a hit.

use vstd::prelude::*;
use crate::components::CollisionEvent;
use crate::events::Events;

verus! {

/// Answers the strikes of this tick: tells whether the sound of a hit is to
/// be played, once however many enemies were struck, and clears the events.
pub fn play_hit_sound(collision_events: &mut Events<CollisionEvent>) -> (play: bool)
    ensures
        play == (old(collision_events)@.len() > 0),
        final(collision_events)@ == Seq::<CollisionEvent>::empty(),
{
    collision_events.react()
}

} // verus!
