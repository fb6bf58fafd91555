//! The integer side of the pet's state machine: the millisecond timers that
//! end short-lived states, the idle clock that leads to looking around and
//! to sleep, and what a pet does on reaching its movement target.

use vstd::prelude::*;
use crate::state::PetState;

verus! {

/// Draws a number uniformly from `low..high` (`fastrand::u32`): whatever
/// comes out lies in that range; which number it is depends on chance and
/// is not stated.
#[verifier::external_body]
fn random_in_range(low: u32, high: u32) -> (r: u32)
    requires
        low < high,
    ensures
        low <= r < high,
{
    fastrand::u32(low..high)
}

/// The pet's millisecond timers.
#[derive(Debug, Clone, Copy, PartialEq, Eq, Structural)]
pub struct StateTimers {
    pub land_time_ms: u32,
    pub peck_time_ms: u32,
    pub celebrate_time_ms: u32,
    pub look_around_timer_ms: u32,
    pub look_around_cooldown_ms: u32,
    pub squish_time_ms: u32,
    pub action_time_ms: u32,
    pub idle_time_ms: u32,
    pub wander_timer_ms: u32,
    pub edge_linger_ms: u32,
    pub pet_reaction_cooldown_ms: u32,
    pub float_timer_ms: u32,
}

/// What a tick of a timer-driven state decided.
#[derive(Debug, Clone, Copy, PartialEq, Eq, Structural)]
pub enum TimedStep {
    /// The state is not one of the timer-driven ones; nothing changed.
    NotTimed,
    /// The state goes on.
    Stay,
    /// The state is over: back to `Idle`.
    Finished,
    /// The landing is over: back to `Idle` at walking speed.
    Landed,
    /// The squish is over: the pet turns into an angel or a splat.
    SquishDone,
    /// The splat or the angel is over: the pet falls in again from the top.
    Respawn,
}

/// `v - d`, or 0 when `d` exceeds `v`.
pub open spec fn sat_sub(v: int, d: int) -> int {
    if v > d { v - d } else { 0 }
}

/// The timer-driven states.
pub open spec fn is_timed(state: PetState) -> bool {
    match state {
        PetState::Land | PetState::Peck | PetState::Celebrate | PetState::LookAround
        | PetState::Squish | PetState::Splat | PetState::Angel | PetState::Action => true,
        _ => false,
    }
}

/// How long each timer-driven state lasts: it ends once its timer exceeds this.
pub open spec fn state_limit_ms(state: PetState) -> int {
    match state {
        PetState::Land => 300,
        PetState::Peck => 400,
        PetState::Celebrate => 600,
        PetState::LookAround => 800,
        PetState::Squish => 300,
        _ => 2000,
    }
}

/// The timers that a tick of `state` can advance stay inside `u32`.
pub open spec fn timed_tick_fits(state: PetState, t: StateTimers, dt_ms: int) -> bool {
    match state {
        PetState::Land => t.land_time_ms + dt_ms <= u32::MAX,
        PetState::Peck => t.peck_time_ms + dt_ms <= u32::MAX,
        PetState::Celebrate => t.celebrate_time_ms + dt_ms <= u32::MAX,
        PetState::LookAround => t.look_around_timer_ms + dt_ms <= u32::MAX,
        PetState::Squish | PetState::Splat | PetState::Angel => t.squish_time_ms + dt_ms
            <= u32::MAX,
        _ => true,
    }
}

/// The outcome of one tick of a timer-driven state, and its timers after it.
/// `Land`, `Peck`, `Celebrate`, `LookAround`, `Squish`, `Splat` and `Angel`
/// count time up and end once past their limit; `Action` counts down and
/// ends at 0; an `Angel` also ends once it has floated off the screen.
/// Counters of the states that end are reset, except `Land` and `Action`;
/// `look_around_cooldown_ms` is not stated here (it is drawn at random).
pub open spec fn timed_step(
    state: PetState,
    t: StateTimers,
    dt_ms: int,
    angel_off_screen: bool,
) -> (TimedStep, StateTimers) {
    match state {
        PetState::Land => {
            let v = t.land_time_ms + dt_ms;
            (
                if v > 300 { TimedStep::Landed } else { TimedStep::Stay },
                StateTimers { land_time_ms: v as u32, ..t },
            )
        },
        PetState::Peck => {
            let v = t.peck_time_ms + dt_ms;
            if v > 400 {
                (TimedStep::Finished, StateTimers { peck_time_ms: 0, ..t })
            } else {
                (TimedStep::Stay, StateTimers { peck_time_ms: v as u32, ..t })
            }
        },
        PetState::Celebrate => {
            let v = t.celebrate_time_ms + dt_ms;
            if v > 600 {
                (TimedStep::Finished, StateTimers { celebrate_time_ms: 0, ..t })
            } else {
                (TimedStep::Stay, StateTimers { celebrate_time_ms: v as u32, ..t })
            }
        },
        PetState::LookAround => {
            let v = t.look_around_timer_ms + dt_ms;
            if v > 800 {
                (TimedStep::Finished, StateTimers { look_around_timer_ms: 0, ..t })
            } else {
                (TimedStep::Stay, StateTimers { look_around_timer_ms: v as u32, ..t })
            }
        },
        PetState::Squish => {
            let v = t.squish_time_ms + dt_ms;
            if v > 300 {
                (TimedStep::SquishDone, StateTimers { squish_time_ms: 0, ..t })
            } else {
                (TimedStep::Stay, StateTimers { squish_time_ms: v as u32, ..t })
            }
        },
        PetState::Splat => {
            let v = t.squish_time_ms + dt_ms;
            (
                if v > 2000 { TimedStep::Respawn } else { TimedStep::Stay },
                StateTimers { squish_time_ms: v as u32, ..t },
            )
        },
        PetState::Angel => {
            let v = t.squish_time_ms + dt_ms;
            (
                if v > 2000 || angel_off_screen { TimedStep::Respawn } else { TimedStep::Stay },
                StateTimers { squish_time_ms: v as u32, ..t },
            )
        },
        PetState::Action => {
            let v = sat_sub(t.action_time_ms as int, dt_ms);
            (
                if v == 0 { TimedStep::Finished } else { TimedStep::Stay },
                StateTimers { action_time_ms: v as u32, ..t },
            )
        },
        _ => (TimedStep::NotTimed, t),
    }
}

/// One tick of a timer-driven state. `angel_off_screen` tells whether an
/// angel has floated above the screen. Ending a look-around draws the next
/// look-around cooldown from 5000..9000 ms.
pub fn advance_timed_state(
    state: PetState,
    timers: &mut StateTimers,
    dt_ms: u32,
    angel_off_screen: bool,
) -> (r: TimedStep)
    requires
        timed_tick_fits(state, *old(timers), dt_ms as int),
    ensures
        ({
            let (step, t) = timed_step(state, *old(timers), dt_ms as int, angel_off_screen);
            &&& r == step
            &&& (state == PetState::LookAround && r == TimedStep::Finished) ==> {
                &&& *final(timers) == StateTimers {
                    look_around_cooldown_ms: final(timers).look_around_cooldown_ms,
                    ..t
                }
                &&& 5000 <= final(timers).look_around_cooldown_ms < 9000
            }
            &&& !(state == PetState::LookAround && r == TimedStep::Finished) ==> *final(timers) == t
        }),
{
    match state {
        PetState::Land => {
            timers.land_time_ms = timers.land_time_ms + dt_ms;
            if timers.land_time_ms > 300 {
                TimedStep::Landed
            } else {
                TimedStep::Stay
            }
        },
        PetState::Peck => {
            timers.peck_time_ms = timers.peck_time_ms + dt_ms;
            if timers.peck_time_ms > 400 {
                timers.peck_time_ms = 0;
                TimedStep::Finished
            } else {
                TimedStep::Stay
            }
        },
        PetState::Celebrate => {
            timers.celebrate_time_ms = timers.celebrate_time_ms + dt_ms;
            if timers.celebrate_time_ms > 600 {
                timers.celebrate_time_ms = 0;
                TimedStep::Finished
            } else {
                TimedStep::Stay
            }
        },
        PetState::LookAround => {
            timers.look_around_timer_ms = timers.look_around_timer_ms + dt_ms;
            if timers.look_around_timer_ms > 800 {
                timers.look_around_timer_ms = 0;
                timers.look_around_cooldown_ms = 5000 + random_in_range(0, 4000);
                TimedStep::Finished
            } else {
                TimedStep::Stay
            }
        },
        PetState::Squish => {
            timers.squish_time_ms = timers.squish_time_ms + dt_ms;
            if timers.squish_time_ms > 300 {
                timers.squish_time_ms = 0;
                TimedStep::SquishDone
            } else {
                TimedStep::Stay
            }
        },
        PetState::Splat => {
            timers.squish_time_ms = timers.squish_time_ms + dt_ms;
            if timers.squish_time_ms > 2000 {
                TimedStep::Respawn
            } else {
                TimedStep::Stay
            }
        },
        PetState::Angel => {
            timers.squish_time_ms = timers.squish_time_ms + dt_ms;
            if timers.squish_time_ms > 2000 || angel_off_screen {
                TimedStep::Respawn
            } else {
                TimedStep::Stay
            }
        },
        PetState::Action => {
            timers.action_time_ms = if timers.action_time_ms > dt_ms {
                timers.action_time_ms - dt_ms
            } else {
                0
            };
            if timers.action_time_ms == 0 {
                TimedStep::Finished
            } else {
                TimedStep::Stay
            }
        },
        _ => TimedStep::NotTimed,
    }
}

/// A timer-driven state ends within a bounded number of ticks: each tick of
/// at least `dt_ms > 0` milliseconds moves its counter towards its limit,
/// so one long enough tick always ends it.
pub proof fn lemma_timed_state_ends(state: PetState, t: StateTimers, dt_ms: int)
    requires
        is_timed(state),
        state != PetState::Action ==> dt_ms > state_limit_ms(state),
        state == PetState::Action ==> dt_ms >= t.action_time_ms,
        dt_ms >= 0,
    ensures
        timed_step(state, t, dt_ms, false).0 != TimedStep::Stay,
        timed_step(state, t, dt_ms, false).0 != TimedStep::NotTimed,
{
}

/// How a timer-driven state's time is sliced into ticks does not matter:
/// if a first tick of `dt1` leaves the state running, a second tick of
/// `dt2` ends in the same outcome, with the same timers, as a single tick
/// of `dt1 + dt2`.
pub proof fn lemma_timed_ticks_compose(state: PetState, t: StateTimers, dt1: int, dt2: int)
    requires
        dt1 >= 0,
        dt2 >= 0,
        timed_step(state, t, dt1, false).0 == TimedStep::Stay,
        timed_tick_fits(state, t, dt1 + dt2),
    ensures
        timed_step(state, timed_step(state, t, dt1, false).1, dt2, false) == timed_step(
            state,
            t,
            dt1 + dt2,
            false,
        ),
{
}

/// The idle clock's counters stay inside `u32` for this tick.
pub open spec fn idle_tick_fits(state: PetState, t: StateTimers, dt_ms: int) -> bool {
    state == PetState::Idle && sat_sub(t.look_around_cooldown_ms as int, dt_ms) > 0 ==> t.idle_time_ms
        + dt_ms <= u32::MAX
}

/// One tick of an idle pet's clocks: the look-around cooldown counts down
/// and, at 0, the pet starts looking around; a pet still idle adds the tick
/// to its idle time and falls asleep once that exceeds `sleep_timeout_ms`.
/// Any other state is left alone.
pub open spec fn idle_step(state: PetState, t: StateTimers, dt_ms: int, sleep_timeout_ms: int) -> (
    PetState,
    StateTimers,
) {
    if state != PetState::Idle {
        (state, t)
    } else {
        let cd = sat_sub(t.look_around_cooldown_ms as int, dt_ms);
        if cd == 0 {
            (
                PetState::LookAround,
                StateTimers { look_around_cooldown_ms: 0, look_around_timer_ms: 0, ..t },
            )
        } else {
            let idle = t.idle_time_ms + dt_ms;
            (
                if idle > sleep_timeout_ms { PetState::Sleep } else { PetState::Idle },
                StateTimers { look_around_cooldown_ms: cd as u32, idle_time_ms: idle as u32, ..t },
            )
        }
    }
}

/// How idle time is sliced into ticks does not change where the pet ends
/// up: if a first tick of `dt1` leaves it idle, a second tick of `dt2`
/// brings it to the same state (idle, looking around, or asleep) as a
/// single tick of `dt1 + dt2`.
pub proof fn lemma_idle_ticks_compose(t: StateTimers, dt1: int, dt2: int, sleep_timeout_ms: int)
    requires
        dt1 >= 0,
        dt2 >= 0,
        idle_step(PetState::Idle, t, dt1, sleep_timeout_ms).0 == PetState::Idle,
        t.idle_time_ms + dt1 + dt2 <= u32::MAX,
    ensures
        idle_step(
            PetState::Idle,
            idle_step(PetState::Idle, t, dt1, sleep_timeout_ms).1,
            dt2,
            sleep_timeout_ms,
        ).0 == idle_step(PetState::Idle, t, dt1 + dt2, sleep_timeout_ms).0,
{
}

/// Runs the idle clocks for one tick and returns the pet's next state.
pub fn idle_clock_step(
    state: PetState,
    timers: &mut StateTimers,
    dt_ms: u32,
    sleep_timeout_ms: u32,
) -> (r: PetState)
    requires
        idle_tick_fits(state, *old(timers), dt_ms as int),
    ensures
        (r, *final(timers)) == idle_step(state, *old(timers), dt_ms as int, sleep_timeout_ms as int),
{
    let mut state = state;
    if state == PetState::Idle {
        timers.look_around_cooldown_ms = if timers.look_around_cooldown_ms > dt_ms {
            timers.look_around_cooldown_ms - dt_ms
        } else {
            0
        };
        if timers.look_around_cooldown_ms == 0 {
            state = PetState::LookAround;
            timers.look_around_timer_ms = 0;
        }
    }
    if state == PetState::Idle {
        timers.idle_time_ms = timers.idle_time_ms + dt_ms;
        if timers.idle_time_ms > sleep_timeout_ms {
            state = PetState::Sleep;
        }
    }
    state
}

/// What becomes of a pet's state when it reaches its movement target:
/// every locomotion state (`Walk`, `Run`, `Wake`, `FollowCursor`,
/// `Wander`) ends in `Idle`; other states are kept.
pub open spec fn arrival_state(state: PetState) -> PetState {
    match state {
        PetState::Wander | PetState::Walk | PetState::Run | PetState::Wake
        | PetState::FollowCursor => PetState::Idle,
        _ => state,
    }
}

/// A pet reached its target: locomotion ends in `Idle`. A wanderer also
/// rests before wandering again, for 500..2000 ms drawn at random.
pub fn arrive_at_target(state: PetState, timers: &mut StateTimers) -> (r: PetState)
    ensures
        r == arrival_state(state),
        state == PetState::Wander ==> *final(timers) == (StateTimers {
            wander_timer_ms: final(timers).wander_timer_ms,
            ..*old(timers)
        }) && 500 <= final(timers).wander_timer_ms < 2000,
        state != PetState::Wander ==> *final(timers) == *old(timers),
{
    match state {
        PetState::Wander => {
            timers.wander_timer_ms = random_in_range(500, 2000);
            PetState::Idle
        },
        PetState::Walk | PetState::Run | PetState::Wake | PetState::FollowCursor => PetState::Idle,
        _ => state,
    }
}

/// No locomotion state survives arriving: after arrival the pet is never
/// left walking, running, waking, following or wandering.
pub proof fn lemma_arrival_leaves_no_locomotion(state: PetState)
    ensures
        arrival_state(state) != PetState::Walk,
        arrival_state(state) != PetState::Run,
        arrival_state(state) != PetState::Wake,
        arrival_state(state) != PetState::FollowCursor,
        arrival_state(state) != PetState::Wander,
        arrival_state(arrival_state(state)) == arrival_state(state),
{
}

/// Squashing the pet (a click on it): anything but a pet already splatted
/// or turned angel becomes `Squish` with its squish timer restarted.
/// Returns whether the pet was squashed.
pub fn squish(state: &mut PetState, timers: &mut StateTimers) -> (r: bool)
    ensures
        r == !(*old(state) == PetState::Splat || *old(state) == PetState::Angel),
        r ==> *final(state) == PetState::Squish && *final(timers) == (StateTimers {
            squish_time_ms: 0,
            ..*old(timers)
        }),
        !r ==> *final(state) == *old(state) && *final(timers) == *old(timers),
{
    if *state == PetState::Splat || *state == PetState::Angel {
        return false;
    }
    *state = PetState::Squish;
    timers.squish_time_ms = 0;
    true
}

/// What the wander clock decided for this tick.
#[derive(Debug, Clone, Copy, PartialEq, Eq, Structural)]
pub enum WanderStep {
    /// Nothing to do.
    Unchanged,
    /// The wander time is used up: back to `Idle`.
    StopWandering,
    /// An idle pet has rested long enough: pick its next behaviour.
    PickBehavior,
}

/// One tick of the wander clock (when the cursor did not move): a
/// wanderer's time counts down and at 0 it stops; an idle pet's rest counts
/// down, and once it is used up the pet picks a new behaviour.
pub open spec fn wander_step(state: PetState, t: StateTimers, dt_ms: int) -> (WanderStep, StateTimers) {
    if state == PetState::Wander {
        let w = sat_sub(t.wander_timer_ms as int, dt_ms);
        (
            if w == 0 { WanderStep::StopWandering } else { WanderStep::Unchanged },
            StateTimers { wander_timer_ms: w as u32, ..t },
        )
    } else if state == PetState::Idle {
        if t.wander_timer_ms == 0 {
            (WanderStep::PickBehavior, t)
        } else {
            (
                WanderStep::Unchanged,
                StateTimers { wander_timer_ms: sat_sub(t.wander_timer_ms as int, dt_ms) as u32, ..t },
            )
        }
    } else {
        (WanderStep::Unchanged, t)
    }
}

/// Runs the wander clock for one tick.
pub fn wander_clock_step(state: PetState, timers: &mut StateTimers, dt_ms: u32) -> (r: WanderStep)
    ensures
        (r, *final(timers)) == wander_step(state, *old(timers), dt_ms as int),
{
    if state == PetState::Wander {
        timers.wander_timer_ms = if timers.wander_timer_ms > dt_ms {
            timers.wander_timer_ms - dt_ms
        } else {
            0
        };
        if timers.wander_timer_ms == 0 {
            WanderStep::StopWandering
        } else {
            WanderStep::Unchanged
        }
    } else if state == PetState::Idle {
        if timers.wander_timer_ms == 0 {
            WanderStep::PickBehavior
        } else {
            timers.wander_timer_ms = if timers.wander_timer_ms > dt_ms {
                timers.wander_timer_ms - dt_ms
            } else {
                0
            };
            WanderStep::Unchanged
        }
    } else {
        WanderStep::Unchanged
    }
}

/// Counts the social-reaction cooldown down by `dt_ms`; the pet may react
/// to a neighbour only once it has run out.
pub fn reaction_ready(timers: &mut StateTimers, dt_ms: u32) -> (r: bool)
    ensures
        *final(timers) == (StateTimers {
            pet_reaction_cooldown_ms: sat_sub(
                old(timers).pet_reaction_cooldown_ms as int,
                dt_ms as int,
            ) as u32,
            ..*old(timers)
        }),
        r == (final(timers).pet_reaction_cooldown_ms == 0),
{
    timers.pet_reaction_cooldown_ms = if timers.pet_reaction_cooldown_ms > dt_ms {
        timers.pet_reaction_cooldown_ms - dt_ms
    } else {
        0
    };
    timers.pet_reaction_cooldown_ms == 0
}

/// Milliseconds an idle pet lingers at a screen edge before doing something.
pub const EDGE_LINGER_LIMIT_MS: u32 = 1000;

/// One tick of the edge-linger clock: an idle pet at an edge accumulates
/// time there and, past `EDGE_LINGER_LIMIT_MS`, acts (the clock restarts);
/// a pet in any other state than `Idle` has its clock reset; an idle pet
/// away from the edges keeps it. Returns whether the pet acts now.
pub fn edge_linger_step(state: PetState, at_edge: bool, timers: &mut StateTimers, dt_ms: u32) -> (r:
    bool)
    requires
        state == PetState::Idle && at_edge ==> old(timers).edge_linger_ms + dt_ms <= u32::MAX,
    ensures
        state == PetState::Idle && at_edge ==> {
            &&& r == (old(timers).edge_linger_ms + dt_ms > EDGE_LINGER_LIMIT_MS)
            &&& *final(timers) == (StateTimers {
                edge_linger_ms: if r {
                    0
                } else {
                    (old(timers).edge_linger_ms + dt_ms) as u32
                },
                ..*old(timers)
            })
        },
        state == PetState::Idle && !at_edge ==> !r && *final(timers) == *old(timers),
        state != PetState::Idle ==> !r && *final(timers) == (StateTimers {
            edge_linger_ms: 0,
            ..*old(timers)
        }),
{
    if state == PetState::Idle && at_edge {
        timers.edge_linger_ms = timers.edge_linger_ms + dt_ms;
        if timers.edge_linger_ms > EDGE_LINGER_LIMIT_MS {
            timers.edge_linger_ms = 0;
            true
        } else {
            false
        }
    } else {
        if state != PetState::Idle {
            timers.edge_linger_ms = 0;
        }
        false
    }
}

/// Counts a floating pet's remaining float time down by `dt_ms`; once it
/// has run out the pet drops and falls.
pub fn float_time_up(timers: &mut StateTimers, dt_ms: u32) -> (r: bool)
    ensures
        *final(timers) == (StateTimers {
            float_timer_ms: sat_sub(old(timers).float_timer_ms as int, dt_ms as int) as u32,
            ..*old(timers)
        }),
        r == (final(timers).float_timer_ms == 0),
{
    timers.float_timer_ms = if timers.float_timer_ms > dt_ms {
        timers.float_timer_ms - dt_ms
    } else {
        0
    };
    timers.float_timer_ms == 0
}

/// The states the behaviour AI leaves alone: landing, pecking,
/// celebrating, climbing, tumbling and the squish/splat/angel sequence
/// run to their end on their own.
pub open spec fn ai_leaves_alone(state: PetState) -> bool {
    match state {
        PetState::Land | PetState::Peck | PetState::Celebrate | PetState::Climb
        | PetState::Tumble | PetState::Squish | PetState::Splat | PetState::Angel => true,
        _ => false,
    }
}

/// Whether the behaviour AI decides anything this tick: only for a pet on
/// the ground in a state it does not leave alone.
pub fn ai_decides(grounded: bool, state: PetState) -> (r: bool)
    ensures
        r == (grounded && !ai_leaves_alone(state)),
{
    !(!grounded || state == PetState::Land || state == PetState::Peck || state
        == PetState::Celebrate || state == PetState::Climb || state == PetState::Tumble || state
        == PetState::Squish || state == PetState::Splat || state == PetState::Angel)
}

/// The pet's answer to a cursor that moved: it runs to the cursor when the
/// cursor moved fast or the pet was asleep, walks to it when it is far,
/// and otherwise stands still.
pub open spec fn cursor_reaction(state: PetState, fast: bool, far: bool) -> PetState {
    if fast || state == PetState::Sleep {
        PetState::Run
    } else if far {
        PetState::Walk
    } else {
        PetState::Idle
    }
}

/// A moved cursor wakes the pet: its idle clock restarts, a new wander
/// rest of 1000 to 2999 ms is drawn, and it takes the state that
/// `cursor_reaction` gives (`fast`: the cursor moved faster than the
/// running threshold; `far`: the cursor is beyond walking distance).
pub fn react_to_cursor(state: PetState, timers: &mut StateTimers, fast: bool, far: bool) -> (r:
    PetState)
    ensures
        r == cursor_reaction(state, fast, far),
        1000 <= final(timers).wander_timer_ms < 3000,
        *final(timers) == (StateTimers {
            idle_time_ms: 0,
            wander_timer_ms: final(timers).wander_timer_ms,
            ..*old(timers)
        }),
{
    timers.idle_time_ms = 0;
    timers.wander_timer_ms = 1000 + random_in_range(0, 2000);
    if fast || state == PetState::Sleep {
        PetState::Run
    } else if far {
        PetState::Walk
    } else {
        PetState::Idle
    }
}

/// The timers set when an idle rest ends in `behavior`: a float lasts 3000
/// to 7999 ms, a wander 2500 to 5999 ms; tumbling, climbing and stomping
/// set no timer; staying idle rests again for 500 to 2499 ms.
pub fn start_behavior_timers(behavior: PetState, timers: &mut StateTimers)
    ensures
        behavior == PetState::Float ==> {
            &&& 3000 <= final(timers).float_timer_ms < 8000
            &&& *final(timers) == (StateTimers {
                float_timer_ms: final(timers).float_timer_ms,
                ..*old(timers)
            })
        },
        behavior == PetState::Wander ==> {
            &&& 2500 <= final(timers).wander_timer_ms < 6000
            &&& *final(timers) == (StateTimers {
                wander_timer_ms: final(timers).wander_timer_ms,
                ..*old(timers)
            })
        },
        (behavior == PetState::Tumble || behavior == PetState::Climb || behavior
            == PetState::Stomp) ==> *final(timers) == *old(timers),
        !(behavior == PetState::Float || behavior == PetState::Wander || behavior
            == PetState::Tumble || behavior == PetState::Climb || behavior == PetState::Stomp)
            ==> {
            &&& 500 <= final(timers).wander_timer_ms < 2500
            &&& *final(timers) == (StateTimers {
                wander_timer_ms: final(timers).wander_timer_ms,
                ..*old(timers)
            })
        },
{
    match behavior {
        PetState::Float => {
            timers.float_timer_ms = 3000 + random_in_range(0, 5000);
        },
        PetState::Wander => {
            timers.wander_timer_ms = 2500 + random_in_range(0, 3500);
        },
        PetState::Tumble | PetState::Climb | PetState::Stomp => {},
        _ => {
            timers.wander_timer_ms = 500 + random_in_range(0, 2000);
        },
    }
}

/// A pet lingering at a screen edge that wanders off rests for 1500 to
/// 2999 ms first.
pub fn start_edge_wander(timers: &mut StateTimers)
    ensures
        1500 <= final(timers).wander_timer_ms < 3000,
        *final(timers) == (StateTimers {
            wander_timer_ms: final(timers).wander_timer_ms,
            ..*old(timers)
        }),
{
    timers.wander_timer_ms = 1500 + random_in_range(0, 1500);
}

/// How a tick of each timer-driven state ends, in terms of its timer and
/// the tick's length: landing gives way to walking once 300 ms are past;
/// pecking, celebrating and looking around finish after 400, 600 and
/// 800 ms; a squish is done after 300 ms; a splat or an angel always ends
/// in a respawn, after 2000 ms (an angel also as soon as it has floated off
/// the screen); an action finishes when its remaining time runs out. Until
/// then the state stays; a state without a timer is left alone.
pub proof fn lemma_timed_outcomes(state: PetState, t: StateTimers, dt_ms: int, angel_off_screen: bool)
    requires
        dt_ms >= 0,
    ensures
        ({
            let out = timed_step(state, t, dt_ms, angel_off_screen).0;
            &&& state == PetState::Land ==> out == (if t.land_time_ms + dt_ms > 300 {
                TimedStep::Landed
            } else {
                TimedStep::Stay
            })
            &&& state == PetState::Peck ==> out == (if t.peck_time_ms + dt_ms > 400 {
                TimedStep::Finished
            } else {
                TimedStep::Stay
            })
            &&& state == PetState::Celebrate ==> out == (if t.celebrate_time_ms + dt_ms > 600 {
                TimedStep::Finished
            } else {
                TimedStep::Stay
            })
            &&& state == PetState::LookAround ==> out == (if t.look_around_timer_ms + dt_ms
                > 800 {
                TimedStep::Finished
            } else {
                TimedStep::Stay
            })
            &&& state == PetState::Squish ==> out == (if t.squish_time_ms + dt_ms > 300 {
                TimedStep::SquishDone
            } else {
                TimedStep::Stay
            })
            &&& (state == PetState::Splat || state == PetState::Angel) ==> {
                &&& out == TimedStep::Respawn || out == TimedStep::Stay
                &&& t.squish_time_ms + dt_ms > 2000 ==> out == TimedStep::Respawn
                &&& (state == PetState::Angel && angel_off_screen) ==> out == TimedStep::Respawn
                &&& (t.squish_time_ms + dt_ms <= 2000 && !(state == PetState::Angel
                    && angel_off_screen)) ==> out == TimedStep::Stay
            }
            &&& state == PetState::Action ==> out == (if t.action_time_ms <= dt_ms {
                TimedStep::Finished
            } else {
                TimedStep::Stay
            })
            &&& !is_timed(state) ==> out == TimedStep::NotTimed && timed_step(
                state,
                t,
                dt_ms,
                angel_off_screen,
            ).1 == t
        }),
{
}

/// The reaction to a moved cursor: a fast cursor always makes the pet run,
/// wherever the cursor is, and so does any cursor movement that wakes a
/// sleeping pet; otherwise the pet walks to a far cursor and stands still
/// near a close one. It never reacts with anything but running, walking or
/// standing idle.
pub proof fn lemma_cursor_reaction(state: PetState, fast: bool, far: bool)
    ensures
        fast ==> cursor_reaction(state, fast, far) == PetState::Run,
        state == PetState::Sleep ==> cursor_reaction(state, fast, far) == PetState::Run,
        (!fast && state != PetState::Sleep && far) ==> cursor_reaction(state, fast, far)
            == PetState::Walk,
        (!fast && state != PetState::Sleep && !far) ==> cursor_reaction(state, fast, far)
            == PetState::Idle,
{
}

} // verus!
