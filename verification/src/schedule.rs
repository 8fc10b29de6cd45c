//! The scheduler: when a tick is due, and on which ticks an enemy enters.
//!
//! Time comes in as nanoseconds, in pieces of any length. The scheduler turns
//! it into whole ticks, sixty to the second, and keeps what is left over for
//! the next piece, so that the number of ticks depends on the time that has
//! passed and not on how it was cut up. Enemies are counted in ticks: one
//! enters on every 120th.

use vstd::prelude::*;
use vstd::arithmetic::div_mod::{lemma_fundamental_div_mod, lemma_fundamental_div_mod_converse};

verus! {

/// The credit that one nanosecond earns.
pub const CREDIT_PER_NANO: u64 = 60;

/// The credit that one tick costs: a tick is a sixtieth of a second.
pub const TICK_COST: u64 = 1_000_000_000;

/// The number of ticks from one entering enemy to the next.
pub const SPAWN_PERIOD: u64 = 120;

/// The ticks that are due when `elapsed` nanoseconds pass with `credit` in hand.
pub open spec fn ticks_due(credit: nat, elapsed: nat) -> nat {
    ((credit + CREDIT_PER_NANO * elapsed) / (TICK_COST as int)) as nat
}

/// The credit that is left when those ticks are paid.
pub open spec fn credit_left(credit: nat, elapsed: nat) -> nat {
    ((credit + CREDIT_PER_NANO * elapsed) % (TICK_COST as int)) as nat
}

/// Whether an enemy enters on the tick that follows `phase` ticks without one.
pub open spec fn spawns_after(phase: nat) -> bool {
    phase + 1 >= SPAWN_PERIOD
}

/// The number of ticks without an entering enemy, one tick after it was `phase`.
pub open spec fn phase_after(phase: nat) -> nat {
    if spawns_after(phase) {
        0
    } else {
        phase + 1
    }
}

/// The number of ticks without an entering enemy, `n` ticks after it was `phase`.
pub open spec fn phase_after_ticks(phase: nat, n: nat) -> nat
    decreases n,
{
    if n == 0 {
        phase
    } else {
        phase_after(phase_after_ticks(phase, (n - 1) as nat))
    }
}

/// How many enemies enter in the `n` ticks that follow `phase` ticks without one.
pub open spec fn spawns_within(phase: nat, n: nat) -> nat
    decreases n,
{
    if n == 0 {
        0
    } else {
        spawns_within(phase, (n - 1) as nat) + if spawns_after(
            phase_after_ticks(phase, (n - 1) as nat),
        ) {
            1nat
        } else {
            0nat
        }
    }
}

/// Keeps the time.
pub struct Scheduler {
    credit: u64,
    phase: u64,
}

impl Scheduler {
    #[verifier::type_invariant]
    spec fn bounded(self) -> bool {
        self.credit < TICK_COST && self.phase < SPAWN_PERIOD
    }

    /// The time in hand that has not made a tick yet, in sixtieths of a
    /// nanosecond.
    pub closed spec fn credit(&self) -> nat {
        self.credit as nat
    }

    /// The number of ticks since an enemy entered, or since the start.
    pub closed spec fn phase(&self) -> nat {
        self.phase as nat
    }

    /// A scheduler at the start: no time in hand, no tick made.
    pub fn new() -> (scheduler: Scheduler)
        ensures
            scheduler.credit() == 0,
            scheduler.phase() == 0,
    {
        Scheduler { credit: 0, phase: 0 }
    }

    /// Takes in `elapsed_nanos` nanoseconds and tells how many ticks are due
    /// for them.
    pub fn advance(&mut self, elapsed_nanos: u64) -> (due: u64)
        ensures
            due == ticks_due(old(self).credit(), elapsed_nanos as nat),
            final(self).credit() == credit_left(old(self).credit(), elapsed_nanos as nat),
            final(self).credit() < TICK_COST,
            final(self).phase() == old(self).phase(),
    {
        proof {
            use_type_invariant(&*self);
        }
        assert(CREDIT_PER_NANO * elapsed_nanos <= 60 * u64::MAX) by (nonlinear_arith)
            requires
                CREDIT_PER_NANO == 60,
                elapsed_nanos <= u64::MAX,
        ;
        let total: u128 = self.credit as u128 + (CREDIT_PER_NANO as u128) * (elapsed_nanos as u128);
        let due: u128 = total / (TICK_COST as u128);
        let left: u128 = total % (TICK_COST as u128);
        assert(due <= u64::MAX) by {
            lemma_fundamental_div_mod(total as int, TICK_COST as int);
            if due > u64::MAX {
                assert(TICK_COST * due >= TICK_COST * (u64::MAX + 1)) by (nonlinear_arith)
                    requires
                        TICK_COST >= 1,
                        due > u64::MAX,
                ;
            }
        }
        self.credit = left as u64;
        due as u64
    }

    /// Counts one tick and tells whether an enemy enters on it.
    pub fn step(&mut self) -> (spawn: bool)
        ensures
            spawn == spawns_after(old(self).phase()),
            final(self).phase() == phase_after(old(self).phase()),
            final(self).phase() < SPAWN_PERIOD,
            final(self).credit() == old(self).credit(),
    {
        proof {
            use_type_invariant(&*self);
        }
        if self.phase + 1 >= SPAWN_PERIOD {
            self.phase = 0;
            true
        } else {
            self.phase = self.phase + 1;
            false
        }
    }
}

/// Below the period, the count of ticks without an enemy runs round the period.
pub proof fn lemma_phase_after_ticks(phase: nat, n: nat)
    requires
        phase < SPAWN_PERIOD,
    ensures
        phase_after_ticks(phase, n) == ((phase + n) as int) % (SPAWN_PERIOD as int),
    decreases n,
{
    if n > 0 {
        lemma_phase_after_ticks(phase, (n - 1) as nat);
        let before = phase + n - 1;
        let q = before / (SPAWN_PERIOD as int);
        let r = before % (SPAWN_PERIOD as int);
        lemma_fundamental_div_mod(before, SPAWN_PERIOD as int);
        if r + 1 >= SPAWN_PERIOD {
            lemma_fundamental_div_mod_converse((phase + n) as int, SPAWN_PERIOD as int, q + 1, 0);
        } else {
            lemma_fundamental_div_mod_converse(
                (phase + n) as int,
                SPAWN_PERIOD as int,
                q,
                r + 1,
            );
        }
    }
}

/// The enemy enters exactly once in every 120 ticks: in the `n` ticks that
/// follow `phase` ticks without one, as many enemies enter as there are whole
/// periods in `phase + n`.
pub proof fn lemma_spawns_within(phase: nat, n: nat)
    requires
        phase < SPAWN_PERIOD,
    ensures
        spawns_within(phase, n) == ((phase + n) as int) / (SPAWN_PERIOD as int),
    decreases n,
{
    if n == 0 {
        lemma_fundamental_div_mod_converse(phase as int, SPAWN_PERIOD as int, 0, phase as int);
    } else {
        lemma_spawns_within(phase, (n - 1) as nat);
        lemma_phase_after_ticks(phase, (n - 1) as nat);
        let before = phase + n - 1;
        let q = before / (SPAWN_PERIOD as int);
        let r = before % (SPAWN_PERIOD as int);
        lemma_fundamental_div_mod(before, SPAWN_PERIOD as int);
        if r + 1 >= SPAWN_PERIOD {
            lemma_fundamental_div_mod_converse((phase + n) as int, SPAWN_PERIOD as int, q + 1, 0);
        } else {
            lemma_fundamental_div_mod_converse(
                (phase + n) as int,
                SPAWN_PERIOD as int,
                q,
                r + 1,
            );
        }
    }
}

/// In any 120 ticks in a row exactly one enemy enters, wherever they start.
pub proof fn lemma_one_spawn_per_period(phase: nat, start: nat)
    requires
        phase < SPAWN_PERIOD,
    ensures
        spawns_within(phase, start + SPAWN_PERIOD as nat) == spawns_within(phase, start) + 1,
{
    lemma_spawns_within(phase, start);
    lemma_spawns_within(phase, start + SPAWN_PERIOD as nat);
    let a = (phase + start) as int;
    lemma_fundamental_div_mod(a, SPAWN_PERIOD as int);
    lemma_fundamental_div_mod_converse(
        a + SPAWN_PERIOD,
        SPAWN_PERIOD as int,
        a / (SPAWN_PERIOD as int) + 1,
        a % (SPAWN_PERIOD as int),
    );
}

/// The ticks do not depend on how the time is cut up: two pieces of time,
/// taken in one after the other, make as many ticks and leave as much credit
/// as the two taken in together.
pub proof fn lemma_advance_splits(credit: nat, first: nat, second: nat)
    ensures
        ticks_due(credit, first) + ticks_due(credit_left(credit, first), second) == ticks_due(
            credit,
            first + second,
        ),
        credit_left(credit_left(credit, first), second) == credit_left(credit, first + second),
{
    let cost = TICK_COST as int;
    let a = (credit + CREDIT_PER_NANO * first) as int;
    let b = (CREDIT_PER_NANO * second) as int;
    let q1 = a / cost;
    let r1 = a % cost;
    let q2 = (r1 + b) / cost;
    let r2 = (r1 + b) % cost;
    lemma_fundamental_div_mod(a, cost);
    lemma_fundamental_div_mod(r1 + b, cost);
    assert(cost * (q1 + q2) == cost * q1 + cost * q2) by (nonlinear_arith);
    assert(CREDIT_PER_NANO * (first + second) == CREDIT_PER_NANO * first + CREDIT_PER_NANO
        * second) by (nonlinear_arith);
    lemma_fundamental_div_mod_converse(a + b, cost, q1 + q2, r2);
}

} // verus!
