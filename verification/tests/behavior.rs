use waypenguin::behavior::{
    advance_timed_state, ai_decides, arrive_at_target, edge_linger_step, float_time_up,
    idle_clock_step, react_to_cursor, reaction_ready, squish, start_behavior_timers,
    start_edge_wander, wander_clock_step, StateTimers, TimedStep, WanderStep,
    EDGE_LINGER_LIMIT_MS,
};
use waypenguin::state::PetState;

fn timers() -> StateTimers {
    StateTimers {
        land_time_ms: 0,
        peck_time_ms: 0,
        celebrate_time_ms: 0,
        look_around_timer_ms: 0,
        look_around_cooldown_ms: 5000,
        squish_time_ms: 0,
        action_time_ms: 0,
        idle_time_ms: 0,
        wander_timer_ms: 0,
        edge_linger_ms: 0,
        pet_reaction_cooldown_ms: 0,
        float_timer_ms: 0,
    }
}

#[test]
fn test_ai_sleep_after_idle() {
    // an idle ground-dweller (sleep timeout 10 s) whose wander and
    // look-around timers are far off falls asleep after 11 s idle
    let mut t = timers();
    t.wander_timer_ms = 20_000;
    t.look_around_cooldown_ms = 20_000;
    let state = PetState::Idle;
    assert_eq!(wander_clock_step(state, &mut t, 11_000), WanderStep::Unchanged);
    let state = idle_clock_step(state, &mut t, 11_000, 10_000);
    assert_eq!(state, PetState::Sleep);
}

#[test]
fn locomotion_at_target_does_not_get_stuck() {
    for state in [PetState::Walk, PetState::Run, PetState::Wander] {
        let mut t = timers();
        let next = arrive_at_target(state, &mut t);
        assert_eq!(next, PetState::Idle, "{state:?} should reset to Idle");
    }
}

#[test]
fn test_squish_death_cycle() {
    let mut state = PetState::Idle;
    let mut t = timers();
    assert!(squish(&mut state, &mut t));
    assert_eq!(state, PetState::Squish);
    let mut outcome = TimedStep::Stay;
    for _ in 0..30 {
        outcome = advance_timed_state(state, &mut t, 16, false);
        if outcome != TimedStep::Stay {
            break;
        }
    }
    assert_eq!(outcome, TimedStep::SquishDone, "squish should lead to splat or angel");
    assert_eq!(t.squish_time_ms, 0);
}

#[test]
fn arrival_keeps_other_states_and_rests_wanderers() {
    let mut t = timers();
    assert_eq!(arrive_at_target(PetState::Wake, &mut t), PetState::Idle);
    assert_eq!(arrive_at_target(PetState::FollowCursor, &mut t), PetState::Idle);
    assert_eq!(t, timers());
    assert_eq!(arrive_at_target(PetState::Sleep, &mut t), PetState::Sleep);
    assert_eq!(arrive_at_target(PetState::Float, &mut t), PetState::Float);
    let before = timers();
    let mut t = before;
    arrive_at_target(PetState::Wander, &mut t);
    assert!((500..2000).contains(&t.wander_timer_ms));
    t.wander_timer_ms = before.wander_timer_ms;
    assert_eq!(t, before);
}

#[test]
fn landing_lasts_three_hundred_ms() {
    let mut t = timers();
    assert_eq!(advance_timed_state(PetState::Land, &mut t, 300, false), TimedStep::Stay);
    assert_eq!(t.land_time_ms, 300);
    assert_eq!(advance_timed_state(PetState::Land, &mut t, 1, false), TimedStep::Landed);
    assert_eq!(t.land_time_ms, 301);
}

#[test]
fn peck_and_celebrate_end_and_reset() {
    let mut t = timers();
    assert_eq!(advance_timed_state(PetState::Peck, &mut t, 400, false), TimedStep::Stay);
    assert_eq!(advance_timed_state(PetState::Peck, &mut t, 1, false), TimedStep::Finished);
    assert_eq!(t.peck_time_ms, 0);
    assert_eq!(advance_timed_state(PetState::Celebrate, &mut t, 601, false), TimedStep::Finished);
    assert_eq!(t.celebrate_time_ms, 0);
}

#[test]
fn look_around_ends_and_draws_new_cooldown() {
    for _ in 0..50 {
        let mut t = timers();
        t.look_around_cooldown_ms = 0;
        assert_eq!(advance_timed_state(PetState::LookAround, &mut t, 801, false), TimedStep::Finished);
        assert_eq!(t.look_around_timer_ms, 0);
        assert!((5000..9000).contains(&t.look_around_cooldown_ms));
    }
}

#[test]
fn splat_and_angel_respawn() {
    let mut t = timers();
    assert_eq!(advance_timed_state(PetState::Splat, &mut t, 2000, false), TimedStep::Stay);
    assert_eq!(advance_timed_state(PetState::Splat, &mut t, 1, false), TimedStep::Respawn);
    let mut t = timers();
    assert_eq!(advance_timed_state(PetState::Angel, &mut t, 10, false), TimedStep::Stay);
    assert_eq!(advance_timed_state(PetState::Angel, &mut t, 10, true), TimedStep::Respawn);
    assert_eq!(t.squish_time_ms, 20);
}

#[test]
fn action_counts_down() {
    let mut t = timers();
    t.action_time_ms = 100;
    assert_eq!(advance_timed_state(PetState::Action, &mut t, 60, false), TimedStep::Stay);
    assert_eq!(t.action_time_ms, 40);
    assert_eq!(advance_timed_state(PetState::Action, &mut t, 60, false), TimedStep::Finished);
    assert_eq!(t.action_time_ms, 0);
}

#[test]
fn untimed_states_are_left_alone() {
    let mut t = timers();
    for s in [PetState::Idle, PetState::Walk, PetState::Float, PetState::Fall] {
        assert_eq!(advance_timed_state(s, &mut t, 5000, false), TimedStep::NotTimed);
    }
    assert_eq!(t, timers());
}

#[test]
fn squish_ignored_when_already_dead() {
    for s in [PetState::Splat, PetState::Angel] {
        let mut state = s;
        let mut t = timers();
        t.squish_time_ms = 77;
        assert!(!squish(&mut state, &mut t));
        assert_eq!(state, s);
        assert_eq!(t.squish_time_ms, 77);
    }
}

#[test]
fn idle_clock_looks_around_when_cooldown_runs_out() {
    let mut t = timers();
    t.look_around_cooldown_ms = 100;
    t.look_around_timer_ms = 55;
    assert_eq!(idle_clock_step(PetState::Idle, &mut t, 100, 10_000), PetState::LookAround);
    assert_eq!(t.look_around_cooldown_ms, 0);
    assert_eq!(t.look_around_timer_ms, 0);
    assert_eq!(t.idle_time_ms, 0);
}

#[test]
fn idle_clock_counts_idle_time() {
    let mut t = timers();
    assert_eq!(idle_clock_step(PetState::Idle, &mut t, 16, 10_000), PetState::Idle);
    assert_eq!(t.idle_time_ms, 16);
    assert_eq!(t.look_around_cooldown_ms, 4984);
    let before = t;
    assert_eq!(idle_clock_step(PetState::Walk, &mut t, 16, 10_000), PetState::Walk);
    assert_eq!(t, before);
}

#[test]
fn wander_clock_stops_wandering_and_asks_for_behaviour() {
    let mut t = timers();
    t.wander_timer_ms = 30;
    assert_eq!(wander_clock_step(PetState::Wander, &mut t, 16), WanderStep::Unchanged);
    assert_eq!(wander_clock_step(PetState::Wander, &mut t, 16), WanderStep::StopWandering);
    assert_eq!(t.wander_timer_ms, 0);
    assert_eq!(wander_clock_step(PetState::Idle, &mut t, 16), WanderStep::PickBehavior);
    t.wander_timer_ms = 10;
    assert_eq!(wander_clock_step(PetState::Idle, &mut t, 16), WanderStep::Unchanged);
    assert_eq!(t.wander_timer_ms, 0);
}

#[test]
fn reaction_waits_for_cooldown() {
    let mut t = timers();
    t.pet_reaction_cooldown_ms = 5000;
    assert!(!reaction_ready(&mut t, 4000));
    assert_eq!(t.pet_reaction_cooldown_ms, 1000);
    assert!(reaction_ready(&mut t, 4000));
    assert_eq!(t.pet_reaction_cooldown_ms, 0);
}

#[test]
fn edge_linger_acts_after_limit() {
    let mut t = timers();
    assert!(!edge_linger_step(PetState::Idle, true, &mut t, EDGE_LINGER_LIMIT_MS));
    assert_eq!(t.edge_linger_ms, 1000);
    assert!(edge_linger_step(PetState::Idle, true, &mut t, 1));
    assert_eq!(t.edge_linger_ms, 0);
    t.edge_linger_ms = 500;
    assert!(!edge_linger_step(PetState::Idle, false, &mut t, 16));
    assert_eq!(t.edge_linger_ms, 500);
    assert!(!edge_linger_step(PetState::Walk, false, &mut t, 16));
    assert_eq!(t.edge_linger_ms, 0);
}

#[test]
fn timed_ticks_compose_like_one_long_tick() {
    for state in [PetState::Land, PetState::Peck, PetState::Celebrate, PetState::Squish, PetState::Splat] {
        for (dt1, dt2) in [(100u32, 150u32), (250, 300), (10, 2500)] {
            let mut split = timers();
            let first = advance_timed_state(state, &mut split, dt1, false);
            if first != TimedStep::Stay {
                continue;
            }
            let second = advance_timed_state(state, &mut split, dt2, false);
            let mut whole = timers();
            let once = advance_timed_state(state, &mut whole, dt1 + dt2, false);
            assert_eq!((second, split), (once, whole), "{state:?} {dt1}+{dt2}");
        }
    }
}

#[test]
fn idle_ticks_reach_sleep_however_sliced() {
    let mut t = timers();
    t.look_around_cooldown_ms = 60_000;
    let mut split = t;
    let mut state = PetState::Idle;
    for _ in 0..5 {
        state = idle_clock_step(state, &mut split, 2_100, 10_000);
    }
    let mut whole = t;
    let once = idle_clock_step(PetState::Idle, &mut whole, 10_500, 10_000);
    assert_eq!(state, PetState::Sleep);
    assert_eq!(once, PetState::Sleep);
}

#[test]
fn drawn_timers_vary() {
    let mut cooldowns = std::collections::HashSet::new();
    let mut rests = std::collections::HashSet::new();
    for _ in 0..60 {
        let mut t = timers();
        advance_timed_state(PetState::LookAround, &mut t, 900, false);
        cooldowns.insert(t.look_around_cooldown_ms);
        arrive_at_target(PetState::Wander, &mut t);
        rests.insert(t.wander_timer_ms);
    }
    assert!(cooldowns.len() > 1);
    assert!(rests.len() > 1);
}

#[test]
fn float_time_runs_out() {
    let mut t = timers();
    t.float_timer_ms = 40;
    assert!(!float_time_up(&mut t, 16));
    assert_eq!(t.float_timer_ms, 24);
    assert!(float_time_up(&mut t, 30));
    assert_eq!(t.float_timer_ms, 0);
}

#[test]
fn ai_leaves_busy_or_airborne_pets_alone() {
    assert!(ai_decides(true, PetState::Idle));
    assert!(ai_decides(true, PetState::Sleep));
    assert!(ai_decides(true, PetState::Float));
    assert!(ai_decides(true, PetState::LookAround));
    assert!(!ai_decides(false, PetState::Idle));
    for s in [PetState::Land, PetState::Peck, PetState::Celebrate, PetState::Climb,
              PetState::Tumble, PetState::Squish, PetState::Splat, PetState::Angel] {
        assert!(!ai_decides(true, s));
    }
}

#[test]
fn moved_cursor_wakes_and_attracts_the_pet() {
    let mut t = timers();
    t.idle_time_ms = 9000;
    t.land_time_ms = 7;
    // asleep: runs, however slow the cursor
    assert_eq!(react_to_cursor(PetState::Sleep, &mut t, false, false), PetState::Run);
    assert_eq!(t.idle_time_ms, 0);
    assert!((1000..3000).contains(&t.wander_timer_ms));
    assert_eq!(t.land_time_ms, 7);
    // a fast cursor makes it run, a far one makes it walk, else it stays
    assert_eq!(react_to_cursor(PetState::Idle, &mut t, true, false), PetState::Run);
    assert_eq!(react_to_cursor(PetState::Idle, &mut t, false, true), PetState::Walk);
    assert_eq!(react_to_cursor(PetState::Wander, &mut t, false, false), PetState::Idle);
    for _ in 0..50 {
        react_to_cursor(PetState::Idle, &mut t, false, false);
        assert!((1000..3000).contains(&t.wander_timer_ms));
    }
}

#[test]
fn new_behaviours_start_their_timers() {
    for _ in 0..50 {
        let mut t = timers();
        start_behavior_timers(PetState::Float, &mut t);
        assert!((3000..8000).contains(&t.float_timer_ms));
        assert_eq!(t.wander_timer_ms, 0);

        let mut t = timers();
        start_behavior_timers(PetState::Wander, &mut t);
        assert!((2500..6000).contains(&t.wander_timer_ms));
        assert_eq!(t.float_timer_ms, 0);

        let mut t = timers();
        start_behavior_timers(PetState::Idle, &mut t);
        assert!((500..2500).contains(&t.wander_timer_ms));

        let mut t = timers();
        start_edge_wander(&mut t);
        assert!((1500..3000).contains(&t.wander_timer_ms));
    }
    for state in [PetState::Tumble, PetState::Climb, PetState::Stomp] {
        let mut t = timers();
        start_behavior_timers(state, &mut t);
        assert_eq!(t, timers());
    }
}
