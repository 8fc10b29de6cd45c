//! The game as a whole: what it holds, and what one tick does to it.

use vstd::prelude::*;
use crate::components::{CollisionEvent, ScoreBoard, ShotEvent};
use crate::enemy::{
    apply_enemy_gravity,
    bounced,
    bounced_slot,
    clear_of_walls,
    enemy_bound_collision,
    entering,
    fallen,
    is_enemy,
    lemma_clear_of_walls,
    lemma_gravity_accumulates,
    speed_y,
};
use crate::events::Events;
use crate::input::Input;
use crate::kabuto::{
    find_kabuto,
    has_one_kabuto,
    is_kabuto,
    kabuto_safe,
    kabuto_transform,
    lemma_keeps_kabuto,
    lemma_one_kabuto,
    move_kabuto,
    starting,
    steered,
};
use crate::schedule::{credit_left, phase_after, spawns_after, ticks_due, Scheduler};
use crate::shot::{
    after_strikes,
    fired_from,
    play_shot_sound,
    shoot,
    shot_enemy_collision,
    strike_count,
    strikes,
    struck,
    ENEMY_SCORE,
};
use crate::sound::play_hit_sound;
use crate::store::{swept, EntityStore, Slot};
use crate::units::clamp_usize;
use crate::world::{apply_velocity, moved, wall_at, WallLocation};

verus! {

/// The sounds that a tick asks for. Each is asked for at most once in a
/// tick, however many events stand behind it.
#[derive(Clone, Copy, Debug, PartialEq, Eq, Structural)]
pub struct Cues {
    /// A shot struck an enemy.
    pub hit_sound: bool,
    /// The beetle fired.
    pub shot_sound: bool,
}

/// All that the systems of the game share.
pub struct Game {
    pub store: EntityStore,
    pub scoreboard: ScoreBoard,
    pub collision_events: Events<CollisionEvent>,
    pub shot_events: Events<ShotEvent>,
    pub scheduler: Scheduler,
}

/// The game as a value.
pub struct GameState {
    /// The slots of the entity store.
    pub slots: Seq<Slot>,
    /// The score.
    pub score: usize,
    /// The collision events that are pending.
    pub collisions: Seq<CollisionEvent>,
    /// The shot events that are pending.
    pub shots: Seq<ShotEvent>,
    /// The time in hand that has not made a tick yet.
    pub credit: nat,
    /// The number of ticks since an enemy entered.
    pub phase: nat,
}

impl View for Game {
    type V = GameState;

    open spec fn view(&self) -> GameState {
        GameState {
            slots: self.store@,
            score: self.scoreboard.score,
            collisions: self.collision_events@,
            shots: self.shot_events@,
            credit: self.scheduler.credit(),
            phase: self.scheduler.phase(),
        }
    }
}

/// The slots at the start of a game: the four walls, then the beetle.
pub open spec fn opening() -> Seq<Slot> {
    seq![
        wall_at(WallLocation::Left),
        wall_at(WallLocation::Right),
        wall_at(WallLocation::Top),
        wall_at(WallLocation::Bottom),
        starting(),
    ]
}

/// The slots after the player's part of a tick: an enemy has entered if
/// `spawn` holds, then the beetle has been steered, then it has fired if the
/// player asked for a shot.
pub open spec fn after_input(slots: Seq<Slot>, input: Input, spawn: bool) -> Seq<Slot> {
    let entered = if spawn {
        slots.push(entering())
    } else {
        slots
    };
    let steered = entered.map_values(|slot: Slot| steered(slot, input));
    if input.fires() {
        steered.push(fired_from(kabuto_transform(steered)))
    } else {
        steered
    }
}

/// The slots after the free motion of a tick: after the player's part, every
/// entity with a speed has moved, then gravity has acted on the enemies.
pub open spec fn after_gravity(slots: Seq<Slot>, input: Input, spawn: bool) -> Seq<Slot> {
    after_input(slots, input, spawn).map_values(|slot: Slot| moved(slot)).map_values(
        |slot: Slot| fallen(slot),
    )
}

/// The slots after the motion of a tick: after the free motion, the enemies
/// have bounced off the walls.
pub open spec fn after_motion(slots: Seq<Slot>, input: Input, spawn: bool) -> Seq<Slot> {
    bounced(after_gravity(slots, input, spawn))
}

/// The game one tick later.
///
/// After the motion the shots strike: each strike scores, and the enemies
/// that were struck are removed when the tick ends. The events of the tick
/// are answered within it, so none is pending afterwards.
pub open spec fn tick_of(state: GameState, input: Input) -> GameState {
    let met = after_motion(state.slots, input, spawns_after(state.phase));
    GameState {
        slots: swept(after_strikes(met)),
        score: clamp_usize(state.score + ENEMY_SCORE * strike_count(met)) as usize,
        collisions: Seq::empty(),
        shots: Seq::empty(),
        credit: state.credit,
        phase: phase_after(state.phase),
    }
}

/// The sounds that the tick asks for: that of a hit if a shot struck an enemy
/// in it, that of a shot if the beetle fired in it, and either one also if an
/// event of its kind was still pending.
pub open spec fn cues_of(state: GameState, input: Input) -> Cues {
    let met = after_motion(state.slots, input, spawns_after(state.phase));
    Cues {
        hit_sound: state.collisions.len() > 0 || strike_count(met) > 0,
        shot_sound: state.shots.len() > 0 || input.fires(),
    }
}

/// The game `n` ticks later, when all of them are made at once: the first
/// tick sees the input as it is, the others see the keys that are held and
/// nothing let go, so that one release fires one shot.
pub open spec fn ticks_of(state: GameState, input: Input, n: nat) -> GameState
    decreases n,
{
    if n == 0 {
        state
    } else {
        ticks_of(tick_of(state, input), input.spec_held(), (n - 1) as nat)
    }
}

/// The sounds that those `n` ticks ask for, tick by tick.
pub open spec fn cues_within(state: GameState, input: Input, n: nat) -> Seq<Cues>
    decreases n,
{
    if n == 0 {
        Seq::empty()
    } else {
        seq![cues_of(state, input)] + cues_within(
            tick_of(state, input),
            input.spec_held(),
            (n - 1) as nat,
        )
    }
}

/// Whether `states` are a run of the game under `inputs`: each state but the
/// first is the one before it, one tick later, with the input of that tick.
pub open spec fn is_run(states: Seq<GameState>, inputs: Seq<Input>) -> bool {
    &&& states.len() == inputs.len() + 1
    &&& forall|t: int|
        0 <= t < inputs.len() ==> states[t + 1] == #[trigger] tick_of(states[t], inputs[t])
}

/// A tick never takes a name back: the store has at least as many slots
/// after it as before.
pub proof fn lemma_tick_keeps_names(state: GameState, input: Input)
    ensures
        tick_of(state, input).slots.len() >= state.slots.len(),
{
}

/// What a tick does to an enemy that overlaps no wall and is still there when
/// the tick ends: gravity has acted on its speed and on its time lived, and
/// nothing else has.
pub proof fn lemma_tick_gravity(state: GameState, input: Input, i: int)
    requires
        0 <= i < state.slots.len(),
        is_enemy(state.slots[i]),
        clear_of_walls(after_gravity(state.slots, input, spawns_after(state.phase)), i),
        is_enemy(tick_of(state, input).slots[i]),
    ensures
        tick_of(state, input).slots[i].velocity == fallen(state.slots[i]).velocity,
        tick_of(state, input).slots[i].enemy == fallen(state.slots[i]).enemy,
{
    let spawn = spawns_after(state.phase);
    let aimed = after_input(state.slots, input, spawn);
    let free = after_gravity(state.slots, input, spawn);
    let met = after_motion(state.slots, input, spawn);
    assert(aimed[i] == steered(state.slots[i], input));
    assert(free[i] == fallen(moved(aimed[i])));
    lemma_clear_of_walls(free, i, free.len());
    assert(met[i] == bounced_slot(free, i));
    assert(met[i].velocity == free[i].velocity);
}

/// Gravity accumulates: over any stretch of a run in which an enemy lives and
/// overlaps no wall, its vertical speed at the end is lower than at the
/// start. The one exception is a speed that has reached the least value that
/// can be held, which stays there.
pub proof fn lemma_enemy_falls_faster(
    states: Seq<GameState>,
    inputs: Seq<Input>,
    i: int,
    a: int,
    b: int,
)
    requires
        is_run(states, inputs),
        0 <= a < b < states.len(),
        0 <= i < states[a].slots.len(),
        forall|t: int| a <= t <= b ==> is_enemy((#[trigger] states[t]).slots[i]),
        forall|t: int|
            a <= t < b ==> clear_of_walls(
                after_gravity((#[trigger] states[t]).slots, inputs[t], spawns_after(states[t].phase)),
                i,
            ),
        speed_y(states[b].slots[i]) > i64::MIN,
    ensures
        speed_y(states[b].slots[i]) < speed_y(states[a].slots[i]),
    decreases b - a,
{
    lemma_run_keeps_names(states, inputs, a, b - 1);
    let last = states[b - 1];
    assert(states[b - 1 + 1] == tick_of(last, inputs[b - 1]));
    assert(is_enemy(states[b - 1].slots[i]));
    assert(is_enemy(states[b].slots[i]));
    lemma_tick_gravity(last, inputs[b - 1], i);
    lemma_gravity_accumulates(last.slots[i]);
    if a < b - 1 {
        lemma_enemy_falls_faster(states, inputs, i, a, b - 1);
    }
}

/// In a run the store never loses a slot.
pub proof fn lemma_run_keeps_names(states: Seq<GameState>, inputs: Seq<Input>, a: int, b: int)
    requires
        is_run(states, inputs),
        0 <= a <= b < states.len(),
    ensures
        states[a].slots.len() <= states[b].slots.len(),
    decreases b - a,
{
    if a < b {
        lemma_run_keeps_names(states, inputs, a, b - 1);
        assert(states[b - 1 + 1] == tick_of(states[b - 1], inputs[b - 1]));
        lemma_tick_keeps_names(states[b - 1], inputs[b - 1]);
    }
}

/// However many enemies the shots strike in one tick, each strike scores and
/// the sound of a hit is asked for once: with `n` strikes the score rises by
/// `n` times the worth of an enemy, the tick asks for the sound exactly if
/// `n` is not zero, and no collision event is left for the next tick to
/// answer again.
pub proof fn lemma_many_strikes_one_sound(state: GameState, input: Input)
    requires
        state.collisions.len() == 0,
    ensures
        tick_of(state, input).score == clamp_usize(
            state.score + ENEMY_SCORE * strike_count(
                after_motion(state.slots, input, spawns_after(state.phase)),
            ),
        ),
        cues_of(state, input).hit_sound == (strike_count(
            after_motion(state.slots, input, spawns_after(state.phase)),
        ) > 0),
        tick_of(state, input).collisions.len() == 0,
        !cues_of(tick_of(state, input), input).hit_sound || strike_count(
            after_motion(
                tick_of(state, input).slots,
                input,
                spawns_after(tick_of(state, input).phase),
            ),
        ) > 0,
{
}

impl Game {
    /// Whether the game has its one beetle, and nothing is about to remove it.
    pub open spec fn wf(&self) -> bool {
        kabuto_safe(self.store@)
    }

    /// A new game: the walls and the beetle, no points, no time passed.
    pub fn new() -> (game: Game)
        ensures
            game@.slots == opening(),
            game@.score == 0,
            game@.collisions == Seq::<CollisionEvent>::empty(),
            game@.shots == Seq::<ShotEvent>::empty(),
            game@.credit == 0,
            game@.phase == 0,
            game.wf(),
    {
        let mut store = EntityStore::new();
        crate::world::setup(&mut store);
        assert(has_one_kabuto(store@.push(starting())) && kabuto_safe(store@.push(starting()))) by {
            let slots = store@.push(starting());
            reveal_with_fuel(crate::store::matching, 6);
            crate::kabuto::lemma_kabuto_kinds(slots[0]);
            crate::kabuto::lemma_kabuto_kinds(slots[1]);
            crate::kabuto::lemma_kabuto_kinds(slots[2]);
            crate::kabuto::lemma_kabuto_kinds(slots[3]);
            crate::kabuto::lemma_kabuto_kinds(slots[4]);
        }
        crate::kabuto::setup(&mut store);
        assert(store@ =~= opening());
        Game {
            store,
            scoreboard: ScoreBoard::new(),
            collision_events: Events::new(),
            shot_events: Events::new(),
            scheduler: Scheduler::new(),
        }
    }

    /// Tells whether the game has its one beetle, and nothing is about to
    /// remove it.
    pub fn is_sound(&self) -> (ok: bool)
        ensures
            ok == self.wf(),
    {
        proof {
            self.store.lemma_bounded();
            if has_one_kabuto(self.store@) {
                lemma_one_kabuto(self.store@);
            }
        }
        match find_kabuto(&self.store) {
            Some(entity) => {
                let slot = self.store.get(entity).unwrap();
                slot.enemy.is_none() && !slot.doomed
            },
            None => false,
        }
    }

    /// Lets an enemy enter now, whatever the scheduler says.
    pub fn spawn_enemy(&mut self) -> (entity: crate::store::Entity)
        requires
            old(self).wf(),
        ensures
            final(self)@ == (GameState { slots: old(self)@.slots.push(entering()), ..old(self)@ }),
            entity.index == old(self)@.slots.len(),
            final(self).wf(),
    {
        let ghost before = self.store@;
        let entity = crate::enemy::setup(&mut self.store);
        proof {
            self.store.lemma_bounded();
            lemma_keeps_kabuto(before, self.store@);
        }
        entity
    }

    /// Makes one tick: the player's part, the motion, the collisions and
    /// what follows from them, in this order.
    pub fn tick(&mut self, input: &Input) -> (cues: Cues)
        requires
            old(self).wf(),
        ensures
            final(self)@ == tick_of(old(self)@, *input),
            cues == cues_of(old(self)@, *input),
            final(self).wf(),
    {
        let ghost start = self.store@;
        let spawn = self.scheduler.step();
        if spawn {
            crate::enemy::setup(&mut self.store);
        }
        let ghost entered = self.store@;
        proof {
            self.store.lemma_bounded();
            lemma_keeps_kabuto(start, entered);
        }
        move_kabuto(input, &mut self.store);
        let ghost steered = self.store@;
        proof {
            self.store.lemma_bounded();
            lemma_keeps_kabuto(entered, steered);
        }
        shoot(input, &mut self.shot_events, &mut self.store);
        let ghost fired = self.store@;
        proof {
            self.store.lemma_bounded();
            lemma_keeps_kabuto(steered, fired);
            assert(fired == after_input(start, *input, spawn));
        }
        apply_velocity(&mut self.store);
        let ghost moved = self.store@;
        proof {
            self.store.lemma_bounded();
            lemma_keeps_kabuto(fired, moved);
        }
        apply_enemy_gravity(&mut self.store);
        let ghost fallen = self.store@;
        proof {
            self.store.lemma_bounded();
            lemma_one_kabuto(moved);
            lemma_keeps_kabuto(moved, fallen);
        }
        enemy_bound_collision(&mut self.store);
        let ghost met = self.store@;
        proof {
            self.store.lemma_bounded();
            lemma_keeps_kabuto(fallen, met);
            assert(met == after_motion(start, *input, spawn));
        }
        shot_enemy_collision(&mut self.store, &mut self.collision_events, &mut self.scoreboard);
        let ghost marked = self.store@;
        proof {
            self.store.lemma_bounded();
            assert forall|j: int| 0 <= j < met.len() && is_kabuto(met[j]) implies !struck(met, j) by {
                lemma_one_kabuto(met);
            }
            lemma_keeps_kabuto(met, marked);
        }
        let hit_sound = play_hit_sound(&mut self.collision_events);
        let shot_sound = play_shot_sound(&mut self.shot_events);
        self.store.sweep();
        proof {
            self.store.lemma_bounded();
            lemma_one_kabuto(marked);
            lemma_keeps_kabuto(marked, self.store@);
        }
        Cues { hit_sound, shot_sound }
    }

    /// Takes in `elapsed_nanos` nanoseconds and makes the ticks that are due
    /// for them. Returns the sounds that they ask for, tick by tick.
    pub fn advance(&mut self, elapsed_nanos: u64, input: &Input) -> (cues: Vec<Cues>)
        requires
            old(self).wf(),
        ensures
            final(self)@ == ticks_of(
                GameState {
                    credit: credit_left(old(self)@.credit, elapsed_nanos as nat),
                    ..old(self)@
                },
                *input,
                ticks_due(old(self)@.credit, elapsed_nanos as nat),
            ),
            cues@ == cues_within(
                GameState {
                    credit: credit_left(old(self)@.credit, elapsed_nanos as nat),
                    ..old(self)@
                },
                *input,
                ticks_due(old(self)@.credit, elapsed_nanos as nat),
            ),
            final(self).wf(),
    {
        let due = self.scheduler.advance(elapsed_nanos);
        let ghost first = self@;
        let mut cues: Vec<Cues> = Vec::new();
        let mut seen = *input;
        let mut made: u64 = 0;
        while made < due
            invariant
                made <= due,
                self.wf(),
                ticks_of(first, *input, due as nat) == ticks_of(self@, seen, (due - made) as nat),
                cues_within(first, *input, due as nat) == cues@ + cues_within(
                    self@,
                    seen,
                    (due - made) as nat,
                ),
            decreases due - made,
        {
            let ghost now = self@;
            let ghost sounds = cues@;
            let cue = self.tick(&seen);
            cues.push(cue);
            proof {
                assert(cues@ + cues_within(self@, seen.spec_held(), (due - made - 1) as nat)
                    =~= sounds + cues_within(now, seen, (due - made) as nat));
            }
            seen = seen.held();
            made += 1;
        }
        cues
    }
}

} // verus!
