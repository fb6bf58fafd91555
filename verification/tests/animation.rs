use waypenguin::state::{AnimationFrame, AnimationSpec, FrameClock, PetState, SpriteSheet};

fn spec_with(frames: usize, fps: u32, loop_anim: bool) -> AnimationSpec {
    AnimationSpec {
        state: PetState::Idle,
        sprite_sheet: SpriteSheet {
            image_path: "idle.png".to_string(),
            frame_width: 32,
            frame_height: 32,
            frames: (0..frames)
                .map(|i| AnimationFrame { x: 32 * i as u32, y: 0, width: 32, height: 32 })
                .collect(),
        },
        fps,
        loop_anim,
    }
}

#[test]
fn test_animation_frame_advancement() {
    let frames = vec![
        AnimationFrame {
            x: 0,
            y: 0,
            width: 32,
            height: 32,
        },
        AnimationFrame {
            x: 32,
            y: 0,
            width: 32,
            height: 32,
        },
    ];
    let spec = AnimationSpec {
        state: PetState::Idle,
        sprite_sheet: SpriteSheet {
            image_path: "idle.png".to_string(),
            frame_width: 32,
            frame_height: 32,
            frames,
        },
        fps: 10,
        loop_anim: true,
    };

    // a freshly created pet starts on frame 0 with no time spent in it
    let mut pet = FrameClock { frame_index: 0, elapsed_ms: 0 };
    assert_eq!(pet.frame_index, 0);

    pet.update_animation(50, &spec);
    assert_eq!(pet.frame_index, 0);

    pet.update_animation(60, &spec);
    assert_eq!(pet.frame_index, 1);
}

#[test]
fn looping_animation_wraps_around() {
    let spec = spec_with(3, 10, true);
    let mut clock = FrameClock { frame_index: 2, elapsed_ms: 0 };
    clock.update_animation(100, &spec);
    assert_eq!(clock, FrameClock { frame_index: 0, elapsed_ms: 0 });
    clock.update_animation(450, &spec);
    assert_eq!(clock, FrameClock { frame_index: 1, elapsed_ms: 50 });
}

#[test]
fn one_shot_animation_stops_on_last_frame() {
    let spec = spec_with(3, 10, false);
    let mut clock = FrameClock { frame_index: 1, elapsed_ms: 30 };
    clock.update_animation(1000, &spec);
    assert_eq!(clock, FrameClock { frame_index: 2, elapsed_ms: 30 });
}

#[test]
fn zero_fps_means_one_frame_per_second() {
    let spec = spec_with(4, 0, true);
    let mut clock = FrameClock { frame_index: 0, elapsed_ms: 0 };
    clock.update_animation(999, &spec);
    assert_eq!(clock, FrameClock { frame_index: 0, elapsed_ms: 999 });
    clock.update_animation(1, &spec);
    assert_eq!(clock, FrameClock { frame_index: 1, elapsed_ms: 0 });
}

#[test]
fn empty_animation_only_keeps_time() {
    let spec = spec_with(0, 10, true);
    let mut clock = FrameClock { frame_index: 5, elapsed_ms: 0 };
    clock.update_animation(250, &spec);
    assert_eq!(clock, FrameClock { frame_index: 5, elapsed_ms: 50 });
}

#[test]
fn ticks_compose_like_one_long_tick() {
    for looping in [true, false] {
        let spec = spec_with(5, 6, looping);
        let mut split = FrameClock { frame_index: 1, elapsed_ms: 40 };
        split.update_animation(170, &spec);
        split.update_animation(333, &spec);
        let mut whole = FrameClock { frame_index: 1, elapsed_ms: 40 };
        whole.update_animation(503, &spec);
        assert_eq!(split, whole);
    }
}
