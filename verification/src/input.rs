//! What the player is doing at the time of a tick.

use vstd::prelude::*;

verus! {

/// The state of the keys and of the mouse button that the game listens to.
#[derive(Clone, Copy, Debug, PartialEq, Eq, Structural)]
pub struct Input {
    /// The left arrow key is held down.
    pub left: bool,
    /// The key A is held down.
    pub a: bool,
    /// The right arrow key is held down.
    pub right: bool,
    /// The key D is held down.
    pub d: bool,
    /// The space bar has just been let go.
    pub space_released: bool,
    /// The left mouse button has just been let go.
    pub click_released: bool,
}

impl Input {
    /// The way the player steers: -1 to the left, 1 to the right, and 0 with
    /// no key held or with keys of both sides held.
    pub open spec fn spec_direction(&self) -> int {
        (if self.right || self.d {
            1int
        } else {
            0int
        }) - (if self.left || self.a {
            1int
        } else {
            0int
        })
    }

    /// Whether the player fires: a shot leaves when the space bar or the
    /// mouse button is let go, not while one is held.
    pub open spec fn spec_fires(&self) -> bool {
        self.space_released || self.click_released
    }

    /// The input with the same keys held and nothing let go.
    pub open spec fn spec_held(&self) -> Input {
        Input { space_released: false, click_released: false, ..*self }
    }

    /// The input with the same keys held and nothing let go.
    #[verifier::when_used_as_spec(spec_held)]
    pub fn held(&self) -> (input: Input)
        ensures
            input == self.spec_held(),
    {
        Input {
            left: self.left,
            a: self.a,
            right: self.right,
            d: self.d,
            space_released: false,
            click_released: false,
        }
    }

    /// An input with nothing held and nothing let go.
    pub fn idle() -> (input: Input)
        ensures
            input.spec_direction() == 0,
            !input.spec_fires(),
            input == (Input {
                left: false,
                a: false,
                right: false,
                d: false,
                space_released: false,
                click_released: false,
            }),
    {
        Input {
            left: false,
            a: false,
            right: false,
            d: false,
            space_released: false,
            click_released: false,
        }
    }

    /// The way the player steers.
    pub fn direction(&self) -> (way: i64)
        ensures
            way == self.spec_direction(),
    {
        let mut way: i64 = 0;
        if self.left || self.a {
            way -= 1;
        }
        if self.right || self.d {
            way += 1;
        }
        way
    }

    /// Whether the player fires.
    #[verifier::when_used_as_spec(spec_fires)]
    pub fn fires(&self) -> (fire: bool)
        ensures
            fire == self.spec_fires(),
    {
        self.space_released || self.click_released
    }
}

} // verus!
