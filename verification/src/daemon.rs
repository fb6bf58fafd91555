//! Per-tick decisions of the pet daemon: animation speed and pose per
//! state, the looping frame clock, click hit-testing, frame centring and
//! the pet count taken from the command line.

use vstd::prelude::*;
use crate::state::{PetState, FrameClock};
use crate::assets::{Activity, activity_name, str_eq};

verus! {

/// Frames per second each state is animated at.
pub open spec fn state_fps(state: PetState) -> u32 {
    match state {
        PetState::Run => 10,
        PetState::Walk => 6,
        PetState::Wake => 8,
        PetState::Celebrate => 6,
        PetState::Fall => 4,
        PetState::Land => 6,
        PetState::Peck => 8,
        PetState::Float => 4,
        PetState::Tumble => 10,
        PetState::Climb => 5,
        PetState::Stomp => 8,
        PetState::Squish => 4,
        PetState::Splat => 2,
        PetState::Angel => 4,
        PetState::Idle | PetState::LookAround | PetState::Action => 2,
        PetState::Sleep => 2,
        _ => 4,
    }
}

/// Frames per second for `state`.
pub fn fps_for_state(state: PetState) -> (r: u32)
    ensures
        r == state_fps(state),
        2 <= r <= 10,
{
    match state {
        PetState::Run => 10,
        PetState::Walk => 6,
        PetState::Wake => 8,
        PetState::Celebrate => 6,
        PetState::Fall => 4,
        PetState::Land => 6,
        PetState::Peck => 8,
        PetState::Float => 4,
        PetState::Tumble => 10,
        PetState::Climb => 5,
        PetState::Stomp => 8,
        PetState::Squish => 4,
        PetState::Splat => 2,
        PetState::Angel => 4,
        PetState::Idle | PetState::LookAround | PetState::Action => 2,
        PetState::Sleep => 2,
        _ => 4,
    }
}

/// The pose shown in each state.
pub open spec fn state_activity(state: PetState) -> Activity {
    match state {
        PetState::Idle => Activity::Action0,
        PetState::LookAround | PetState::Wake | PetState::FollowCursor => Activity::Walker,
        PetState::Walk | PetState::Wander => Activity::Walker,
        PetState::Action => Activity::Action0,
        PetState::Run => Activity::Walker,
        PetState::Sleep => Activity::Action0,
        PetState::Fall => Activity::Faller,
        PetState::Land => Activity::Tumbler,
        PetState::Celebrate | PetState::Peck => Activity::Action0,
        PetState::Float => Activity::Floater,
        PetState::Tumble => Activity::Tumbler,
        PetState::Climb | PetState::Stomp => Activity::Climber,
        PetState::Squish | PetState::Splat => Activity::Splatted,
        PetState::Angel => Activity::Angel,
    }
}

/// The pose shown in `state`.
pub fn activity_for_state(state: PetState) -> (r: Activity)
    ensures
        r == state_activity(state),
{
    match state {
        PetState::Idle => Activity::Action0,
        PetState::LookAround | PetState::Wake | PetState::FollowCursor => Activity::Walker,
        PetState::Walk | PetState::Wander => Activity::Walker,
        PetState::Action => Activity::Action0,
        PetState::Run => Activity::Walker,
        PetState::Sleep => Activity::Action0,
        PetState::Fall => Activity::Faller,
        PetState::Land => Activity::Tumbler,
        PetState::Celebrate | PetState::Peck => Activity::Action0,
        PetState::Float => Activity::Floater,
        PetState::Tumble => Activity::Tumbler,
        PetState::Climb | PetState::Stomp => Activity::Climber,
        PetState::Squish | PetState::Splat => Activity::Splatted,
        PetState::Angel => Activity::Angel,
    }
}

/// The name of the pose shown in `state`.
pub fn state_to_activity(state: PetState) -> (r: &'static str)
    ensures
        r@ == activity_name(state_activity(state)),
{
    activity_for_state(state).name()
}

/// Where the daemon's looping frame clock stands `dt` milliseconds later
/// for an animation of `n` frames (`n` as the `u32` it is converted to):
/// time wraps around one full cycle of the frames, and the frame shown is
/// the one the cycle has reached (never past the last).
pub open spec fn looping_clock(elapsed_ms: int, dt_ms: int, fps: int, n: int) -> (int, int) {
    let d = 1000int / fps;
    let total = d * n;
    let e = elapsed_ms + dt_ms;
    let e2 = if total > 0 { e % total } else { e };
    (vstd::math::min(e2 / d, n - 1), e2)
}

/// `n as u32` for a `usize` value `n`.
pub open spec fn truncate_u32(n: int) -> int {
    n % 0x1_0000_0000
}

impl FrameClock {
    /// The daemon's per-tick frame clock for an animation of `frame_count`
    /// frames shown at `fps`: with no frames only the time advances.
    pub fn advance_looping(&mut self, dt_ms: u32, fps: u32, frame_count: usize)
        requires
            old(self).elapsed_ms + dt_ms <= u32::MAX,
            frame_count > 0 ==> 1 <= fps <= 1000,
            frame_count > 0 ==> truncate_u32(frame_count as int) * (1000int / fps as int) <= u32::MAX,
            frame_count > 0 ==> truncate_u32(frame_count as int) > 0,
        ensures
            frame_count == 0 ==> final(self).frame_index == old(self).frame_index
                && final(self).elapsed_ms == old(self).elapsed_ms + dt_ms,
            frame_count > 0 ==> (final(self).frame_index as int, final(self).elapsed_ms as int)
                == looping_clock(
                old(self).elapsed_ms as int,
                dt_ms as int,
                fps as int,
                truncate_u32(frame_count as int),
            ),
            frame_count > 0 ==> final(self).frame_index < frame_count,
    {
        self.elapsed_ms = self.elapsed_ms + dt_ms;
        if frame_count > 0 {
            let n = frame_count as u32;
            proof {
                let fc = frame_count as u64;
                assert(fc as u32 as u64 == fc % 0x1_0000_0000u64) by (bit_vector);
                assert(fc == frame_count as int);
                assert(n <= frame_count);
                assert(1000int / fps as int >= 1) by (nonlinear_arith)
                    requires
                        1 <= fps <= 1000,
                ;
            }
            let frame_duration = 1000 / fps;
            assert(frame_duration * n == n * (1000int / fps as int)) by (nonlinear_arith)
                requires
                    frame_duration == 1000int / fps as int,
            ;
            let total_duration = frame_duration * n;
            if total_duration > 0 {
                self.elapsed_ms = self.elapsed_ms % total_duration;
            }
            let idx = self.elapsed_ms / frame_duration;
            let last = n - 1;
            self.frame_index = (if idx < last { idx } else { last }) as usize;
        }
    }

    /// Back to the first frame with no time spent in it (a state change).
    pub fn restart(&mut self)
        ensures
            final(self).frame_index == 0,
            final(self).elapsed_ms == 0,
    {
        self.frame_index = 0;
        self.elapsed_ms = 0;
    }
}

/// A click at (`cx`, `cy`) lands on the `size` x `size` pet window whose
/// top-left corner is (`px`, `py`).
pub fn click_hits_pet(cx: i32, cy: i32, px: i32, py: i32, size: i32) -> (r: bool)
    requires
        i32::MIN <= px + size <= i32::MAX,
        i32::MIN <= py + size <= i32::MAX,
    ensures
        r == (px <= cx < px + size && py <= cy < py + size),
{
    cx >= px && cx < px + size && cy >= py && cy < py + size
}

/// Offset that centres a frame of `frame_len` pixels in a window of
/// `window_len` pixels: half the spare room, or 0 when the frame does not fit.
pub fn centered_offset(window_len: i32, frame_len: i32) -> (r: i32)
    requires
        i32::MIN <= window_len - frame_len <= i32::MAX,
    ensures
        r == (if window_len - frame_len > 0 {
            (window_len - frame_len) / 2
        } else {
            0
        }),
        r >= 0,
        window_len >= frame_len ==> 2 * r <= window_len - frame_len,
{
    let spare = window_len - frame_len;
    if spare > 0 {
        spare / 2
    } else {
        0
    }
}

/// An ASCII decimal digit.
pub open spec fn is_decimal_digit(c: char) -> bool {
    '0' <= c <= '9'
}

/// The number written by the decimal digits `s`.
pub open spec fn decimal_value(s: Seq<char>) -> int
    decreases s.len(),
{
    if s.len() == 0 {
        0
    } else {
        decimal_value(s.drop_last()) * 10 + (s.last() as int - '0' as int)
    }
}

/// `s` without a leading `+`.
pub open spec fn unsigned_digits(s: Seq<char>) -> Seq<char> {
    if s.len() > 0 && s[0] == '+' {
        s.drop_first()
    } else {
        s
    }
}

/// Every character of `s` is a decimal digit.
pub open spec fn all_decimal_digits(s: Seq<char>) -> bool {
    forall|i: int| 0 <= i < s.len() ==> is_decimal_digit(#[trigger] s[i])
}

/// What `str::parse::<u32>` makes of `s`, as its documentation states it:
/// an optional `+` followed by one or more decimal digits whose value fits
/// in a `u32`; anything else is an error.
pub open spec fn parsed_u32(s: Seq<char>) -> Option<u32> {
    let body = unsigned_digits(s);
    if body.len() > 0 && all_decimal_digits(body) && decimal_value(body) <= u32::MAX {
        Some(decimal_value(body) as u32)
    } else {
        None
    }
}

/// The characters of `s`, in order.
fn chars_of(s: &str) -> (r: Vec<char>)
    ensures
        r@ == s@,
{
    broadcast use vstd::string::axiom_spec_iter;

    let mut out: Vec<char> = Vec::new();
    for c in it: s.chars()
        invariant
            out@ == it.seq().take(it.index()),
            it.seq() == s@,
    {
        out.push(c);
    }
    out
}

/// Appending a digit never makes a number of decimal digits smaller.
proof fn lemma_decimal_value_grows(s: Seq<char>, j: int)
    requires
        0 <= j <= s.len(),
        forall|i: int| 0 <= i < s.len() ==> is_decimal_digit(#[trigger] s[i]),
    ensures
        0 <= decimal_value(s.take(j)) <= decimal_value(s),
    decreases s.len() - j,
{
    if j < s.len() {
        lemma_decimal_value_grows(s, j + 1);
        assert(s.take(j + 1).drop_last() =~= s.take(j));
        assert(s.take(j + 1).last() == s[j]);
    } else {
        assert(s.take(j) =~= s);
    }
    lemma_decimal_value_nonneg(s.take(j));
}

proof fn lemma_decimal_value_nonneg(s: Seq<char>)
    requires
        forall|i: int| 0 <= i < s.len() ==> is_decimal_digit(#[trigger] s[i]),
    ensures
        decimal_value(s) >= 0,
    decreases s.len(),
{
    if s.len() > 0 {
        lemma_decimal_value_nonneg(s.drop_last());
    }
}

/// Parses a decimal `u32` as `str::parse::<u32>` does: an optional `+`
/// followed by one or more decimal digits whose value fits in a `u32`.
fn parse_u32(s: &str) -> (r: Option<u32>)
    ensures
        r == parsed_u32(s@),
{
    let cs = chars_of(s);
    let n = cs.len();
    let start: usize = if n > 0 && cs[0] == '+' { 1 } else { 0 };
    let ghost body = unsigned_digits(s@);
    assert(body =~= s@.subrange(start as int, n as int));
    if start == n {
        return None;
    }
    let mut value: u64 = 0;
    let mut i: usize = start;
    while i < n
        invariant
            cs@ == s@,
            n == cs@.len(),
            start <= i <= n,
            body == s@.subrange(start as int, n as int),
            body == unsigned_digits(s@),
            forall|k: int| 0 <= k < i - start ==> is_decimal_digit(#[trigger] body[k]),
            value == decimal_value(body.take(i - start)),
            value <= u32::MAX,
        decreases n - i,
    {
        let c = cs[i];
        assert(c == body[i - start]);
        if !('0' <= c && c <= '9') {
            assert(!is_decimal_digit(body[i - start]));
            assert(!all_decimal_digits(body));
            return None;
        }
        let ghost k = i - start;
        assert(body.take(k + 1).drop_last() =~= body.take(k));
        assert(body.take(k + 1).last() == c);
        let d = (c as u32 - '0' as u32) as u64;
        value = value * 10 + d;
        i = i + 1;
        assert(value == decimal_value(body.take(i - start)));
        if value > 0xFFFF_FFFF {
            proof {
                if all_decimal_digits(body) {
                    lemma_decimal_value_grows(body, i - start);
                }
            }
            return None;
        }
    }
    assert(body.take(n - start) =~= body);
    Some(value as u32)
}

/// `args[i]` is a pet-count flag followed by a number.
pub open spec fn count_flag_at(args: Seq<Seq<char>>, i: int) -> bool {
    &&& (args[i] == "-n"@ || args[i] == "--n"@ || args[i] == "--count"@)
    &&& i + 1 < args.len()
    &&& parsed_u32(args[i + 1]) is Some
}

/// `n` kept within 1..=50.
pub open spec fn clamp_pet_count(n: int) -> int {
    if n < 1 {
        1
    } else if n > 50 {
        50
    } else {
        n
    }
}

/// The number of pets asked for on the command line `args` (program name
/// first): the number after the first `--count`, `-n` or `--n` that is
/// followed by a number, kept within 1..=50; 5 when there is none.
pub fn pet_count_from_args(args: &Vec<String>) -> (r: u32)
    ensures
        ({
            let a = args@.map_values(|s: String| s@);
            ||| exists|i: int|
                1 <= i < a.len() && #[trigger] count_flag_at(a, i) && (forall|j: int|
                    1 <= j < i ==> !count_flag_at(a, j)) && r == clamp_pet_count(
                    parsed_u32(a[i + 1])->0 as int,
                )
            ||| (forall|i: int| 1 <= i < a.len() ==> !count_flag_at(a, i)) && r == 5
        }),
{
    let ghost a = args@.map_values(|s: String| s@);
    let mut i: usize = 1;
    while i < args.len()
        invariant
            a == args@.map_values(|s: String| s@),
            1 <= i,
            i <= args@.len() || args@.len() == 0,
            forall|j: int| 1 <= j < i && j < a.len() ==> !count_flag_at(a, j),
        decreases args@.len() - i,
    {
        let arg = args[i].as_str();
        if str_eq(arg, "-n") || str_eq(arg, "--n") || str_eq(arg, "--count") {
            if i + 1 < args.len() {
                if let Some(n) = parse_u32(args[i + 1].as_str()) {
                    assert(count_flag_at(a, i as int));
                    return if n < 1 {
                        1
                    } else if n > 50 {
                        50
                    } else {
                        n
                    };
                }
            }
        }
        i = i + 1;
    }
    5
}

/// Which pose each state is drawn with: every state that moves the pet
/// along the ground or about to (walking, running, wandering, looking
/// around, waking, following the cursor) uses the walker pose; resting,
/// sleeping, pecking, celebrating and acting use the standing pose; falling,
/// landing and tumbling, floating, climbing and stomping, being squashed
/// and flying off as an angel each have their own pose.
pub proof fn lemma_state_poses(state: PetState)
    ensures
        (state == PetState::Walk || state == PetState::Run || state == PetState::Wander || state
            == PetState::LookAround || state == PetState::Wake || state == PetState::FollowCursor)
            ==> state_activity(state) == Activity::Walker,
        (state == PetState::Idle || state == PetState::Sleep || state == PetState::Peck || state
            == PetState::Celebrate || state == PetState::Action) ==> state_activity(state)
            == Activity::Action0,
        state == PetState::Fall ==> state_activity(state) == Activity::Faller,
        (state == PetState::Land || state == PetState::Tumble) ==> state_activity(state)
            == Activity::Tumbler,
        state == PetState::Float ==> state_activity(state) == Activity::Floater,
        (state == PetState::Climb || state == PetState::Stomp) ==> state_activity(state)
            == Activity::Climber,
        (state == PetState::Squish || state == PetState::Splat) ==> state_activity(state)
            == Activity::Splatted,
        state == PetState::Angel ==> state_activity(state) == Activity::Angel,
{
}

/// How fast each state is animated: running and tumbling fastest (10 fps),
/// waking, pecking and stomping at 8, walking, landing and celebrating at 6,
/// climbing at 5, falling, floating, squashing, flying off, wandering and
/// following the cursor at 4, and the resting states, the splat and sleep
/// slowest at 2.
pub proof fn lemma_state_speeds(state: PetState)
    ensures
        (state == PetState::Run || state == PetState::Tumble) ==> state_fps(state) == 10,
        (state == PetState::Wake || state == PetState::Peck || state == PetState::Stomp)
            ==> state_fps(state) == 8,
        (state == PetState::Walk || state == PetState::Land || state == PetState::Celebrate)
            ==> state_fps(state) == 6,
        state == PetState::Climb ==> state_fps(state) == 5,
        (state == PetState::Fall || state == PetState::Float || state == PetState::Squish || state
            == PetState::Angel || state == PetState::Wander || state == PetState::FollowCursor)
            ==> state_fps(state) == 4,
        (state == PetState::Idle || state == PetState::LookAround || state == PetState::Action
            || state == PetState::Splat || state == PetState::Sleep) ==> state_fps(state) == 2,
{
}

} // verus!
