//! The pet's states and the sprite-sheet animation data that drives them.

use vstd::prelude::*;

verus! {

/// Every behaviour the pet can be in.
#[derive(Debug, Clone, Copy, PartialEq, Eq, Structural)]
pub enum PetState {
    Idle,
    Walk,
    Run,
    Sleep,
    Wake,
    LookAround,
    FollowCursor,
    Fall,
    Land,
    Celebrate,
    Wander,
    Peck,
    Float,
    Tumble,
    Climb,
    Stomp,
    Squish,
    Splat,
    Angel,
    Action,
}

/// A rectangle of a sprite sheet holding one animation frame.
#[derive(Debug, Clone, Copy, PartialEq, Eq, Structural)]
pub struct AnimationFrame {
    pub x: u32,
    pub y: u32,
    pub width: u32,
    pub height: u32,
}

/// An image together with the frames cut out of it.
#[derive(Debug, Clone)]
pub struct SpriteSheet {
    pub image_path: String,
    pub frame_width: u32,
    pub frame_height: u32,
    pub frames: Vec<AnimationFrame>,
}

/// How a state is animated: its sheet, its speed and whether it loops.
#[derive(Debug, Clone)]
pub struct AnimationSpec {
    pub state: PetState,
    pub sprite_sheet: SpriteSheet,
    pub fps: u32,
    pub loop_anim: bool,
}

/// Milliseconds one frame stays on screen at `fps` (a second when `fps` is 0).
pub open spec fn frame_duration_ms(fps: int) -> int {
    if fps > 0 { 1000int / fps } else { 1000 }
}

/// Where an animation clock stands after `dt` more milliseconds: the frame
/// index and the milliseconds already spent in that frame. Whole frame
/// durations in the accumulated time advance the frame; a looping animation
/// wraps around `n` frames, a one-shot one stops on its last frame.
pub open spec fn spec_animation_step(
    frame_index: int,
    elapsed_ms: int,
    dt_ms: int,
    fps: int,
    n: int,
    looping: bool,
) -> (int, int) {
    let d = frame_duration_ms(fps);
    let e = elapsed_ms + dt_ms;
    let advance = e / d;
    let new_index = if e < d || n == 0 {
        frame_index
    } else if looping {
        (frame_index + advance) % n
    } else {
        vstd::math::min(frame_index + advance, n - 1)
    };
    (new_index, e % d)
}

/// The animation position of a pet: current frame and time spent in it.
#[derive(Debug, Clone, Copy, PartialEq, Eq, Structural)]
pub struct FrameClock {
    pub frame_index: usize,
    pub elapsed_ms: u32,
}

impl FrameClock {
    /// Advances the clock by `dt_ms` under `spec`.
    pub fn update_animation(&mut self, dt_ms: u32, spec: &AnimationSpec)
        requires
            old(self).elapsed_ms + dt_ms <= u32::MAX,
            spec.fps <= 1000,
            spec.sprite_sheet.frames@.len() > 0 ==> old(self).frame_index + (old(self).elapsed_ms
                + dt_ms) / frame_duration_ms(spec.fps as int) <= usize::MAX,
        ensures
            (final(self).frame_index as int, final(self).elapsed_ms as int) == spec_animation_step(
                old(self).frame_index as int,
                old(self).elapsed_ms as int,
                dt_ms as int,
                spec.fps as int,
                spec.sprite_sheet.frames@.len() as int,
                spec.loop_anim,
            ),
    {
        self.elapsed_ms = self.elapsed_ms + dt_ms;
        let frame_duration_ms: u32 = if spec.fps > 0 { 1000 / spec.fps } else { 1000 };
        proof {
            if spec.fps > 0 {
                assert(1000int / spec.fps as int >= 1) by (nonlinear_arith)
                    requires
                        0 < spec.fps <= 1000,
                ;
            }
            assert(frame_duration_ms == self::frame_duration_ms(spec.fps as int));
            if self.elapsed_ms < frame_duration_ms {
                vstd::arithmetic::div_mod::lemma_small_mod(
                    self.elapsed_ms as nat,
                    frame_duration_ms as nat,
                );
            }
        }
        if self.elapsed_ms >= frame_duration_ms {
            let frames_to_advance = self.elapsed_ms / frame_duration_ms;
            self.elapsed_ms = self.elapsed_ms % frame_duration_ms;
            let num_frames = spec.sprite_sheet.frames.len();
            if num_frames > 0 {
                let moved = self.frame_index + frames_to_advance as usize;
                if spec.loop_anim {
                    self.frame_index = moved % num_frames;
                } else {
                    self.frame_index = if moved < num_frames - 1 { moved } else { num_frames - 1 };
                }
            }
        }
    }
}

/// After any step the time spent in the current frame is shorter than one
/// frame, and a frame index of a non-empty animation lands inside it
/// (looping) or no later than its last frame (one-shot).
pub proof fn lemma_animation_step_bounds(
    frame_index: int,
    elapsed_ms: int,
    dt_ms: int,
    fps: int,
    n: int,
    looping: bool,
)
    requires
        frame_index >= 0,
        elapsed_ms >= 0,
        dt_ms >= 0,
        0 <= fps <= 1000,
        n >= 0,
    ensures
        ({
            let (i, e) = spec_animation_step(frame_index, elapsed_ms, dt_ms, fps, n, looping);
            &&& 0 <= e < frame_duration_ms(fps)
            &&& i >= 0
            &&& (n > 0 && elapsed_ms + dt_ms >= frame_duration_ms(fps)) ==> i < n
        }),
{
    let d = frame_duration_ms(fps);
    assert(d >= 1) by {
        if fps > 0 {
            assert(1000int / fps >= 1) by (nonlinear_arith)
                requires
                    0 < fps <= 1000,
            ;
        }
    }
}

/// Advancing an animation by `dt1` and then by `dt2` lands where a single
/// advance by `dt1 + dt2` does: frame timing does not depend on how the
/// time is sliced into ticks.
pub proof fn lemma_animation_steps_compose(
    frame_index: int,
    elapsed_ms: int,
    dt1: int,
    dt2: int,
    fps: int,
    n: int,
    looping: bool,
)
    requires
        frame_index >= 0,
        elapsed_ms >= 0,
        dt1 >= 0,
        dt2 >= 0,
        0 <= fps <= 1000,
        n >= 0,
    ensures
        ({
            let (i1, e1) = spec_animation_step(frame_index, elapsed_ms, dt1, fps, n, looping);
            spec_animation_step(i1, e1, dt2, fps, n, looping) == spec_animation_step(
                frame_index,
                elapsed_ms,
                dt1 + dt2,
                fps,
                n,
                looping,
            )
        }),
{
    let d = frame_duration_ms(fps);
    lemma_animation_step_bounds(frame_index, elapsed_ms, dt1, fps, n, looping);
    let ea = elapsed_ms + dt1;
    let a1 = ea / d;
    let r1 = ea % d;
    let eb = r1 + dt2;
    let a2 = eb / d;
    let r2 = eb % d;
    let ec = elapsed_ms + dt1 + dt2;
    assert(ea == a1 * d + r1 && 0 <= r1 < d) by {
        vstd::arithmetic::div_mod::lemma_fundamental_div_mod(ea, d);
    }
    assert(eb == a2 * d + r2 && 0 <= r2 < d) by {
        vstd::arithmetic::div_mod::lemma_fundamental_div_mod(eb, d);
    }
    assert(ec == (a1 + a2) * d + r2) by (nonlinear_arith)
        requires
            ea == a1 * d + r1,
            eb == a2 * d + r2,
            eb == r1 + dt2,
            ec == ea + dt2,
    ;
    assert(a1 >= 0 && a2 >= 0) by {
        vstd::arithmetic::div_mod::lemma_div_pos_is_pos(ea, d);
        vstd::arithmetic::div_mod::lemma_div_pos_is_pos(eb, d);
    }
    assert(ec / d == a1 + a2 && ec % d == r2) by {
        vstd::arithmetic::div_mod::lemma_fundamental_div_mod_converse(ec, d, a1 + a2, r2);
    }
    assert(ea < d <==> a1 == 0) by {
        if ea < d {
            vstd::arithmetic::div_mod::lemma_basic_div(ea, d);
        }
        if a1 == 0 {
            assert(ea == r1);
        }
    }
    assert(eb < d <==> a2 == 0) by {
        if eb < d {
            vstd::arithmetic::div_mod::lemma_basic_div(eb, d);
        }
        if a2 == 0 {
            assert(eb == r2);
        }
    }
    assert(ec < d <==> a1 + a2 == 0) by {
        if ec < d {
            vstd::arithmetic::div_mod::lemma_basic_div(ec, d);
        }
        if a1 + a2 == 0 {
            assert(ec == r2);
        }
    }
    if n > 0 && looping && a1 > 0 && a2 > 0 {
        assert(((frame_index + a1) % n + a2) % n == (frame_index + a1 + a2) % n) by {
            vstd::arithmetic::div_mod::lemma_add_mod_noop(frame_index + a1, a2, n);
            vstd::arithmetic::div_mod::lemma_add_mod_noop((frame_index + a1) % n, a2, n);
            vstd::arithmetic::div_mod::lemma_mod_twice(frame_index + a1, n);
        }
    }
}

/// An animation clock moves on by one frame per whole frame duration of
/// accumulated time and keeps the rest: from a frame inside a non-empty
/// animation of `n` frames, a one-shot animation lands on
/// `min(frame_index + whole durations, n - 1)`, a looping one on
/// `(frame_index + whole durations) % n`, and the time left in the frame is
/// the accumulated time modulo one duration.
pub proof fn lemma_animation_step_advance(
    frame_index: int,
    elapsed_ms: int,
    dt_ms: int,
    fps: int,
    n: int,
    looping: bool,
)
    requires
        0 <= frame_index < n,
        elapsed_ms >= 0,
        dt_ms >= 0,
        0 <= fps <= 1000,
    ensures
        ({
            let d = frame_duration_ms(fps);
            let (i, e) = spec_animation_step(frame_index, elapsed_ms, dt_ms, fps, n, looping);
            &&& !looping ==> i == vstd::math::min(frame_index + (elapsed_ms + dt_ms) / d, n - 1)
            &&& looping ==> i == (frame_index + (elapsed_ms + dt_ms) / d) % n
            &&& e == (elapsed_ms + dt_ms) % d
        }),
{
    let d = frame_duration_ms(fps);
    assert(d >= 1) by {
        if fps > 0 {
            assert(1000int / fps >= 1) by (nonlinear_arith)
                requires
                    0 < fps <= 1000,
            ;
        }
    }
    let e = elapsed_ms + dt_ms;
    if e < d {
        vstd::arithmetic::div_mod::lemma_basic_div(e, d);
        vstd::arithmetic::div_mod::lemma_small_mod(frame_index as nat, n as nat);
    }
}

} // verus!
