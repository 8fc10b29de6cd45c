//! The simulation core of a small arcade shooter.
//!
//! A beetle slides along the bottom of the screen and fires shots upward;
//! enemies enter at the left edge, drift right, fall ever faster and bounce off
//! the four walls; a shot that overlaps an enemy destroys it and scores.
//!
//! All quantities are exact integers. Lengths are counted in sub-units
//! ([`units::UNIT`] of them make one world unit), time in ticks
//! ([`units::TICKS_PER_SECOND`] of them make one second) and speeds in
//! sub-units per tick, so that one tick of motion and of gravity is computed
//! without rounding.

pub mod units;
pub mod components;
pub mod input;
pub mod store;
pub mod events;
pub mod collision;
pub mod world;
pub mod enemy;
pub mod kabuto;
pub mod shot;
pub mod sound;
pub mod schedule;
pub mod game;
pub mod scoreboard;
