use waypenguin::assets::Activity;
use waypenguin::daemon::{
    activity_for_state, centered_offset, click_hits_pet, fps_for_state, pet_count_from_args,
    state_to_activity,
};
use waypenguin::state::{FrameClock, PetState};

fn args(list: &[&str]) -> Vec<String> {
    list.iter().map(|s| s.to_string()).collect()
}

#[test]
fn pet_count_defaults_to_five() {
    assert_eq!(pet_count_from_args(&args(&["waypenguin"])), 5);
    assert_eq!(pet_count_from_args(&args(&[])), 5);
    assert_eq!(pet_count_from_args(&args(&["waypenguin", "-n"])), 5);
    assert_eq!(pet_count_from_args(&args(&["waypenguin", "-n", "many"])), 5);
    assert_eq!(pet_count_from_args(&args(&["waypenguin", "-x", "7"])), 5);
}

#[test]
fn pet_count_is_read_and_clamped() {
    assert_eq!(pet_count_from_args(&args(&["waypenguin", "-n", "7"])), 7);
    assert_eq!(pet_count_from_args(&args(&["waypenguin", "--n", "+12"])), 12);
    assert_eq!(pet_count_from_args(&args(&["waypenguin", "-n", "0"])), 1);
    assert_eq!(pet_count_from_args(&args(&["waypenguin", "-n", "99"])), 50);
    assert_eq!(pet_count_from_args(&args(&["waypenguin", "-n", "99999999999"])), 5);
    // the first flag followed by a number wins
    assert_eq!(pet_count_from_args(&args(&["waypenguin", "-n", "x", "-n", "3", "-n", "4"])), 3);
    // the program name is never read as a flag
    assert_eq!(pet_count_from_args(&args(&["-n", "9"])), 5);
}

#[test]
fn state_poses_and_speeds() {
    assert_eq!(state_to_activity(PetState::Idle), "action0");
    assert_eq!(state_to_activity(PetState::Run), "walker");
    assert_eq!(state_to_activity(PetState::Fall), "faller");
    assert_eq!(state_to_activity(PetState::Land), "tumbler");
    assert_eq!(state_to_activity(PetState::Float), "floater");
    assert_eq!(state_to_activity(PetState::Stomp), "climber");
    assert_eq!(state_to_activity(PetState::Squish), "splatted");
    assert_eq!(state_to_activity(PetState::Angel), "angel");
    assert_eq!(activity_for_state(PetState::Peck), Activity::Action0);
    assert_eq!(fps_for_state(PetState::Run), 10);
    assert_eq!(fps_for_state(PetState::Walk), 6);
    assert_eq!(fps_for_state(PetState::Climb), 5);
    assert_eq!(fps_for_state(PetState::Splat), 2);
    assert_eq!(fps_for_state(PetState::Wander), 4);
}

#[test]
fn looping_clock_cycles_through_frames() {
    // 4 fps: 250 ms per frame, 3 frames: a 750 ms cycle
    let mut clock = FrameClock { frame_index: 0, elapsed_ms: 0 };
    clock.advance_looping(300, 4, 3);
    assert_eq!(clock, FrameClock { frame_index: 1, elapsed_ms: 300 });
    clock.advance_looping(300, 4, 3);
    assert_eq!(clock, FrameClock { frame_index: 2, elapsed_ms: 600 });
    clock.advance_looping(300, 4, 3);
    assert_eq!(clock, FrameClock { frame_index: 0, elapsed_ms: 150 });
    clock.advance_looping(100, 4, 0);
    assert_eq!(clock, FrameClock { frame_index: 0, elapsed_ms: 250 });
    clock.restart();
    assert_eq!(clock, FrameClock { frame_index: 0, elapsed_ms: 0 });
}

#[test]
fn clicks_hit_inside_the_window_only() {
    assert!(click_hits_pet(10, 10, 0, 0, 90));
    assert!(click_hits_pet(0, 89, 0, 0, 90));
    assert!(!click_hits_pet(90, 10, 0, 0, 90));
    assert!(!click_hits_pet(-1, 10, 0, 0, 90));
}

#[test]
fn frames_are_centred() {
    assert_eq!(centered_offset(90, 60), 15);
    assert_eq!(centered_offset(90, 61), 14);
    assert_eq!(centered_offset(90, 90), 0);
    assert_eq!(centered_offset(90, 120), 0);
}

#[test]
fn pet_count_reads_the_count_flag() {
    assert_eq!(pet_count_from_args(&args(&["waypenguin-daemon", "--count", "3"])), 3);
    assert_eq!(pet_count_from_args(&args(&["waypenguin-daemon", "--count", "0"])), 1);
    assert_eq!(pet_count_from_args(&args(&["waypenguin-daemon", "--count", "99"])), 50);
    assert_eq!(pet_count_from_args(&args(&["waypenguin-daemon", "--count"])), 5);
    assert_eq!(pet_count_from_args(&args(&["waypenguin-daemon", "--count", "2", "-n", "8"])), 2);
    assert_eq!(pet_count_from_args(&args(&["waypenguin-daemon", "-n", "8", "--count", "2"])), 8);
}

#[test]
fn pet_count_number_edges() {
    // what `str::parse::<u32>` refuses leaves the default in place
    assert_eq!(pet_count_from_args(&args(&["waypenguin", "-n", "+"])), 5);
    assert_eq!(pet_count_from_args(&args(&["waypenguin", "-n", "-5"])), 5);
    assert_eq!(pet_count_from_args(&args(&["waypenguin", "-n", ""])), 5);
    assert_eq!(pet_count_from_args(&args(&["waypenguin", "-n", "4294967296"])), 5);
    assert_eq!(pet_count_from_args(&args(&["waypenguin", "-n", " 7"])), 5);
    // the largest `u32` is read and then clamped
    assert_eq!(pet_count_from_args(&args(&["waypenguin", "-n", "4294967295"])), 50);
    assert_eq!(pet_count_from_args(&args(&["waypenguin", "-n", "007"])), 7);
    assert_eq!(pet_count_from_args(&args(&["waypenguin", "-n", "50"])), 50);
    assert_eq!(pet_count_from_args(&args(&["waypenguin", "-n", "1"])), 1);
}
