//! Pet poses ("activities"): their names, the cache of rasterised poses,
//! nearest-neighbour rescaling and the solid fallback frame.

use vstd::prelude::*;

verus! {

/// Activities shipped as vector poses, each rasterised on demand.
pub const ACTIVITIES: [&'static str; 8] = [
    "action0",
    "walker",
    "climber",
    "faller",
    "tumbler",
    "floater",
    "splatted",
    "angel",
];

/// One of the shipped poses.
#[derive(Debug, Clone, Copy, PartialEq, Eq, Structural)]
pub enum Activity {
    Action0,
    Walker,
    Climber,
    Faller,
    Tumbler,
    Floater,
    Splatted,
    Angel,
}

/// The name a pose is known by.
pub open spec fn activity_name(a: Activity) -> Seq<char> {
    match a {
        Activity::Action0 => "action0"@,
        Activity::Walker => "walker"@,
        Activity::Climber => "climber"@,
        Activity::Faller => "faller"@,
        Activity::Tumbler => "tumbler"@,
        Activity::Floater => "floater"@,
        Activity::Splatted => "splatted"@,
        Activity::Angel => "angel"@,
    }
}

/// Position of a pose in `ACTIVITIES`.
pub open spec fn activity_index(a: Activity) -> int {
    match a {
        Activity::Action0 => 0,
        Activity::Walker => 1,
        Activity::Climber => 2,
        Activity::Faller => 3,
        Activity::Tumbler => 4,
        Activity::Floater => 5,
        Activity::Splatted => 6,
        Activity::Angel => 7,
    }
}

/// `name` is the name of some pose.
pub open spec fn is_activity_name(name: Seq<char>) -> bool {
    exists|a: Activity| activity_name(a) == name
}

/// Different poses have different names.
pub proof fn lemma_activity_names_distinct(a: Activity, b: Activity)
    ensures
        a != b ==> activity_name(a) != activity_name(b),
{
    reveal_strlit("action0");
    reveal_strlit("walker");
    reveal_strlit("climber");
    reveal_strlit("faller");
    reveal_strlit("tumbler");
    reveal_strlit("floater");
    reveal_strlit("splatted");
    reveal_strlit("angel");
    if a != b {
        assert(activity_name(a)[0] != activity_name(b)[0] || activity_name(a)[1] != activity_name(b)[1] || activity_name(a).len() != activity_name(b).len());
    }
}

/// The pose called `name`, if there is one.
pub open spec fn named_activity(name: Seq<char>) -> Option<Activity> {
    if is_activity_name(name) {
        Some(choose|a: Activity| activity_name(a) == name)
    } else {
        None
    }
}

pub(crate) fn str_eq(a: &str, b: &str) -> (r: bool)
    ensures
        r == (a@ == b@),
{
    a.to_owned() == b.to_owned()
}

impl Activity {
    /// The pose's name.
    pub fn name(self) -> (r: &'static str)
        ensures
            r@ == activity_name(self),
    {
        match self {
            Activity::Action0 => "action0",
            Activity::Walker => "walker",
            Activity::Climber => "climber",
            Activity::Faller => "faller",
            Activity::Tumbler => "tumbler",
            Activity::Floater => "floater",
            Activity::Splatted => "splatted",
            Activity::Angel => "angel",
        }
    }

    /// The pose called `name`, if there is one.
    pub fn from_name(name: &str) -> (r: Option<Activity>)
        ensures
            r == named_activity(name@),
    {
        let r = if str_eq(name, "action0") {
            Some(Activity::Action0)
        } else if str_eq(name, "walker") {
            Some(Activity::Walker)
        } else if str_eq(name, "climber") {
            Some(Activity::Climber)
        } else if str_eq(name, "faller") {
            Some(Activity::Faller)
        } else if str_eq(name, "tumbler") {
            Some(Activity::Tumbler)
        } else if str_eq(name, "floater") {
            Some(Activity::Floater)
        } else if str_eq(name, "splatted") {
            Some(Activity::Splatted)
        } else if str_eq(name, "angel") {
            Some(Activity::Angel)
        } else {
            None
        };
        proof {
            match r {
                Some(a) => lemma_named_activity(a, name@),
                None => {
                    assert forall|a: Activity| activity_name(a) != name@ by {
                        match a {
                            Activity::Action0 => {},
                            Activity::Walker => {},
                            Activity::Climber => {},
                            Activity::Faller => {},
                            Activity::Tumbler => {},
                            Activity::Floater => {},
                            Activity::Splatted => {},
                            Activity::Angel => {},
                        }
                    }
                },
            }
        }
        r
    }
}

proof fn lemma_named_activity(a: Activity, name: Seq<char>)
    requires
        activity_name(a) == name,
    ensures
        named_activity(name) == Some(a),
{
    assert(is_activity_name(name));
    let c = choose|b: Activity| activity_name(b) == name;
    lemma_activity_names_distinct(a, c);
}

/// Number of frames in an activity: every known pose is a single frame;
/// an unknown name has none.
pub fn activity_frame_count(name: &str) -> (r: Option<usize>)
    ensures
        r == (if is_activity_name(name@) {
            Some(1usize)
        } else {
            None::<usize>
        }),
{
    match Activity::from_name(name) {
        Some(_) => Some(1),
        None => None,
    }
}

/// Colour of the fallback frame: opaque dark grey.
pub const FALLBACK_COLOR: u32 = 0xFF_2D2D2D;

/// A solid `width` x `height` frame used when no pose is available.
pub fn fallback_frame(width: u32, height: u32) -> (r: Vec<u32>)
    requires
        width * height <= u32::MAX,
    ensures
        r@.len() == width * height,
        forall|i: int| 0 <= i < r@.len() ==> r@[i] == FALLBACK_COLOR,
{
    let n = (width * height) as usize;
    let mut out: Vec<u32> = Vec::new();
    let mut i: usize = 0;
    while i < n
        invariant
            i <= n,
            out@.len() == i,
            forall|j: int| 0 <= j < i ==> out@[j] == FALLBACK_COLOR,
        decreases n - i,
    {
        out.push(FALLBACK_COLOR);
        i = i + 1;
    }
    out
}

/// The source pixel that nearest-neighbour rescaling reads for destination
/// pixel (`dx`, `dy`): destination coordinates scaled back proportionally,
/// rounded down and kept inside the source.
pub open spec fn upscale_source_index(
    dx: int,
    dy: int,
    src_w: int,
    src_h: int,
    dest_w: int,
    dest_h: int,
) -> int {
    vstd::math::min(dy * src_h / dest_h, src_h - 1) * src_w + vstd::math::min(
        dx * src_w / dest_w,
        src_w - 1,
    )
}

/// The inputs on which rescaling neither overflows nor reads outside the frame.
pub open spec fn upscale_fits(len: int, src_w: int, src_h: int, dest_w: int, dest_h: int) -> bool {
    &&& dest_w * dest_h <= u32::MAX
    &&& dest_h > 0 ==> src_h > 0 && (dest_h - 1) * src_h <= u32::MAX
    &&& dest_h > 0 && dest_w > 0 ==> src_w > 0 && (dest_w - 1) * src_w <= u32::MAX
    &&& forall|dx: int, dy: int|
        0 <= dx < dest_w && 0 <= dy < dest_h ==> {
            &&& #[trigger] upscale_source_index(dx, dy, src_w, src_h, dest_w, dest_h) < len
            &&& upscale_source_index(dx, dy, src_w, src_h, dest_w, dest_h) <= u32::MAX
        }
}

/// Whether rescaling a frame of `len` pixels from `src_w` x `src_h` to
/// `dest_w` x `dest_h` stays inside its integer types and inside the frame
/// (the `requires` of `upscale_frame`), so that callers can test it first.
pub fn upscale_fits_check(len: usize, src_w: u32, src_h: u32, dest_w: u32, dest_h: u32) -> (r:
    bool)
    ensures
        r == upscale_fits(len as int, src_w as int, src_h as int, dest_w as int, dest_h as int),
{
    let dw: u64 = dest_w as u64;
    let dh: u64 = dest_h as u64;
    let sw: u64 = src_w as u64;
    let sh: u64 = src_h as u64;
    proof {
        lemma_u32_product_fits(dw, dh);
    }
    if dw * dh > 0xFFFF_FFFFu64 {
        return false;
    }
    if dest_h > 0 {
        if src_h == 0 {
            return false;
        }
        proof {
            lemma_u32_product_fits((dh - 1) as u64, sh);
        }
        if (dh - 1) * sh > 0xFFFF_FFFFu64 {
            return false;
        }
    }
    if dest_h > 0 && dest_w > 0 {
        if src_w == 0 {
            return false;
        }
        proof {
            lemma_u32_product_fits((dw - 1) as u64, sw);
        }
        if (dw - 1) * sw > 0xFFFF_FFFFu64 {
            return false;
        }
    }
    let mut dy: u32 = 0;
    while dy < dest_h
        invariant
            dy <= dest_h,
            dest_w * dest_h <= u32::MAX,
            dest_h > 0 ==> src_h > 0 && (dest_h - 1) * src_h <= u32::MAX,
            dest_h > 0 && dest_w > 0 ==> src_w > 0 && (dest_w - 1) * src_w <= u32::MAX,
            forall|ddx: int, ddy: int|
                0 <= ddx < dest_w && 0 <= ddy < dy ==> {
                    &&& #[trigger] upscale_source_index(
                        ddx,
                        ddy,
                        src_w as int,
                        src_h as int,
                        dest_w as int,
                        dest_h as int,
                    ) < len
                    &&& upscale_source_index(
                        ddx,
                        ddy,
                        src_w as int,
                        src_h as int,
                        dest_w as int,
                        dest_h as int,
                    ) <= u32::MAX
                },
        decreases dest_h - dy,
    {
        proof {
            lemma_scaled_le(dy as int, src_h as int, dest_h - 1);
        }
        let sy_raw = dy * src_h / dest_h;
        let sy = if sy_raw < src_h - 1 { sy_raw } else { src_h - 1 };
        let mut dx: u32 = 0;
        while dx < dest_w
            invariant
                dy < dest_h,
                dx <= dest_w,
                dest_w * dest_h <= u32::MAX,
                dest_h > 0 ==> src_h > 0 && (dest_h - 1) * src_h <= u32::MAX,
                dest_h > 0 && dest_w > 0 ==> src_w > 0 && (dest_w - 1) * src_w <= u32::MAX,
                sy == vstd::math::min((dy * src_h) / (dest_h as int), src_h - 1),
                forall|ddx: int, ddy: int|
                    0 <= ddx < dest_w && 0 <= ddy < dy ==> {
                        &&& #[trigger] upscale_source_index(
                            ddx,
                            ddy,
                            src_w as int,
                            src_h as int,
                            dest_w as int,
                            dest_h as int,
                        ) < len
                        &&& upscale_source_index(
                            ddx,
                            ddy,
                            src_w as int,
                            src_h as int,
                            dest_w as int,
                            dest_h as int,
                        ) <= u32::MAX
                    },
                forall|ddx: int|
                    0 <= ddx < dx ==> {
                        &&& #[trigger] upscale_source_index(
                            ddx,
                            dy as int,
                            src_w as int,
                            src_h as int,
                            dest_w as int,
                            dest_h as int,
                        ) < len
                        &&& upscale_source_index(
                            ddx,
                            dy as int,
                            src_w as int,
                            src_h as int,
                            dest_w as int,
                            dest_h as int,
                        ) <= u32::MAX
                    },
            decreases dest_w - dx,
        {
            proof {
                lemma_scaled_le(dx as int, src_w as int, dest_w - 1);
            }
            let sx_raw = dx * src_w / dest_w;
            let sx = if sx_raw < src_w - 1 { sx_raw } else { src_w - 1 };
            proof {
                lemma_u32_product_fits(sy as u64, src_w as u64);
            }
            let idx: u64 = sy as u64 * src_w as u64 + sx as u64;
            assert(idx == upscale_source_index(
                dx as int,
                dy as int,
                src_w as int,
                src_h as int,
                dest_w as int,
                dest_h as int,
            ));
            if idx >= len as u64 || idx > 0xFFFF_FFFFu64 {
                return false;
            }
            dx = dx + 1;
        }
        dy = dy + 1;
    }
    true
}

/// A product of two values of at most `u32::MAX` fits in a `u64`.
proof fn lemma_u32_product_fits(a: u64, b: u64)
    requires
        a <= 0xFFFF_FFFF,
        b <= 0xFFFF_FFFF,
    ensures
        a * b <= 0xFFFF_FFFE_0000_0001,
{
    assert(a * b <= 0xFFFF_FFFF * 0xFFFF_FFFF) by (nonlinear_arith)
        requires
            a <= 0xFFFF_FFFF,
            b <= 0xFFFF_FFFF,
    ;
}

proof fn lemma_row_major(a: int, w: int, b: int, h: int)
    requires
        0 <= a < h,
        0 <= b < w,
    ensures
        0 <= a * w + b < h * w,
        a * w + b + 1 <= h * w,
{
    assert(a * w + b < h * w) by (nonlinear_arith)
        requires
            0 <= a < h,
            0 <= b < w,
    ;
    assert(0 <= a * w) by (nonlinear_arith)
        requires
            0 <= a,
            0 <= b < w,
    ;
}

proof fn lemma_scaled_le(a: int, s: int, amax: int)
    requires
        0 <= a <= amax,
        0 <= s,
    ensures
        0 <= a * s <= amax * s,
{
    assert(0 <= a * s <= amax * s) by (nonlinear_arith)
        requires
            0 <= a <= amax,
            0 <= s,
    ;
}

/// Nearest-neighbour rescale of a `src_w` x `src_h` frame to `dest_w` x `dest_h`.
pub fn upscale_frame(frame_pixels: &[u32], src_w: u32, src_h: u32, dest_w: u32, dest_h: u32) -> (r:
    Vec<u32>)
    requires
        upscale_fits(
            frame_pixels@.len() as int,
            src_w as int,
            src_h as int,
            dest_w as int,
            dest_h as int,
        ),
    ensures
        r@.len() == dest_w * dest_h,
        forall|dx: int, dy: int|
            0 <= dx < dest_w && 0 <= dy < dest_h ==> #[trigger] r@[dy * dest_w + dx]
                == frame_pixels@[upscale_source_index(
                dx,
                dy,
                src_w as int,
                src_h as int,
                dest_w as int,
                dest_h as int,
            )],
{
    let mut out: Vec<u32> = Vec::new();
    let mut dy: u32 = 0;
    while dy < dest_h
        invariant
            upscale_fits(
                frame_pixels@.len() as int,
                src_w as int,
                src_h as int,
                dest_w as int,
                dest_h as int,
            ),
            dy <= dest_h,
            out@.len() == dy * dest_w,
            forall|ddx: int, ddy: int|
                0 <= ddx < dest_w && 0 <= ddy < dy ==> #[trigger] out@[ddy * dest_w + ddx]
                    == frame_pixels@[upscale_source_index(
                    ddx,
                    ddy,
                    src_w as int,
                    src_h as int,
                    dest_w as int,
                    dest_h as int,
                )],
        decreases dest_h - dy,
    {
        proof {
            lemma_scaled_le(dy as int, src_h as int, dest_h - 1);
        }
        let sy_raw = dy * src_h / dest_h;
        let sy = if sy_raw < src_h - 1 { sy_raw } else { src_h - 1 };
        let mut dx: u32 = 0;
        while dx < dest_w
            invariant
                upscale_fits(
                    frame_pixels@.len() as int,
                    src_w as int,
                    src_h as int,
                    dest_w as int,
                    dest_h as int,
                ),
                dy < dest_h,
                dx <= dest_w,
                sy == vstd::math::min((dy * src_h) / (dest_h as int), src_h - 1),
                out@.len() == dy * dest_w + dx,
                forall|ddx: int, ddy: int|
                    0 <= ddx < dest_w && 0 <= ddy < dy ==> #[trigger] out@[ddy * dest_w + ddx]
                        == frame_pixels@[upscale_source_index(
                        ddx,
                        ddy,
                        src_w as int,
                        src_h as int,
                        dest_w as int,
                        dest_h as int,
                    )],
                forall|ddx: int|
                    0 <= ddx < dx ==> #[trigger] out@[dy * dest_w + ddx]
                        == frame_pixels@[upscale_source_index(
                        ddx,
                        dy as int,
                        src_w as int,
                        src_h as int,
                        dest_w as int,
                        dest_h as int,
                    )],
            decreases dest_w - dx,
        {
            proof {
                lemma_scaled_le(dx as int, src_w as int, dest_w - 1);
                lemma_row_major(dy as int, dest_w as int, dx as int, dest_h as int);
            }
            let sx_raw = dx * src_w / dest_w;
            let sx = if sx_raw < src_w - 1 { sx_raw } else { src_w - 1 };
            assert(upscale_source_index(
                dx as int,
                dy as int,
                src_w as int,
                src_h as int,
                dest_w as int,
                dest_h as int,
            ) == sy * src_w + sx);
            let src_idx = sy * src_w + sx;
            let v = frame_pixels[src_idx as usize];
            let ghost before = out@;
            out.push(v);
            proof {
                assert forall|ddx: int, ddy: int|
                    0 <= ddx < dest_w && 0 <= ddy < dy implies #[trigger] out@[ddy * dest_w + ddx]
                    == before[ddy * dest_w + ddx] by {
                    lemma_row_major(ddy, dest_w as int, ddx, dy as int);
                }
            }
            dx = dx + 1;
        }
        proof {
            assert(out@.len() == (dy + 1) * dest_w) by (nonlinear_arith)
                requires
                    out@.len() == dy * dest_w + dest_w,
            ;
            assert forall|ddx: int, ddy: int|
                0 <= ddx < dest_w && 0 <= ddy < dy + 1 implies #[trigger] out@[ddy * dest_w + ddx]
                == frame_pixels@[upscale_source_index(
                ddx,
                ddy,
                src_w as int,
                src_h as int,
                dest_w as int,
                dest_h as int,
            )] by {
                if ddy == dy {
                }
            }
        }
        dy = dy + 1;
    }
    assert(out@.len() == dest_w * dest_h) by (nonlinear_arith)
        requires
            out@.len() == dy * dest_w,
            dy == dest_h,
    ;
    out
}

/// Rescaling a frame to its own size reads every pixel from where it
/// already is: the result is a copy of the frame.
pub proof fn lemma_upscale_same_size(dx: int, dy: int, w: int, h: int)
    requires
        0 <= dx < w,
        0 <= dy < h,
    ensures
        upscale_source_index(dx, dy, w, h, w, h) == dy * w + dx,
{
    assert(dy * h / h == dy) by (nonlinear_arith)
        requires
            0 <= dy < h,
    ;
    assert(dx * w / w == dx) by (nonlinear_arith)
        requires
            0 <= dx < w,
    ;
}

/// Scaling coordinate `i` of a `n`-pixel side up by `k` and back maps it to
/// `i * k` and then to `i` again.
proof fn lemma_scale_up_down(i: int, n: int, k: int)
    requires
        0 <= i < n,
        k >= 1,
    ensures
        vstd::math::min(i * (k * n) / n, k * n - 1) == i * k,
        0 <= i * k < k * n,
        vstd::math::min((i * k) * n / (k * n), n - 1) == i,
{
    assert(i * (k * n) == (i * k) * n) by (nonlinear_arith);
    vstd::arithmetic::div_mod::lemma_div_multiples_vanish(i * k, n);
    assert(n * (i * k) == (i * k) * n) by (nonlinear_arith);
    assert(0 <= i * k < k * n && i * k <= k * n - 1) by (nonlinear_arith)
        requires
            0 <= i < n,
            k >= 1,
    ;
    assert((i * k) * n == (k * n) * i) by (nonlinear_arith);
    vstd::arithmetic::div_mod::lemma_div_multiples_vanish(i, k * n);
}

/// Rescaling a `w` x `h` frame up by a whole factor `k` and then back down
/// to `w` x `h` restores the frame: `down` is the frame's first `w * h`
/// pixels again.
pub proof fn lemma_upscale_round_trip(
    p: Seq<u32>,
    up: Seq<u32>,
    down: Seq<u32>,
    w: int,
    h: int,
    k: int,
)
    requires
        w >= 1,
        h >= 1,
        k >= 1,
        p.len() >= w * h,
        up.len() == (k * w) * (k * h),
        forall|dx: int, dy: int|
            0 <= dx < k * w && 0 <= dy < k * h ==> #[trigger] up[dy * (k * w) + dx]
                == p[upscale_source_index(dx, dy, w, h, k * w, k * h)],
        down.len() == w * h,
        forall|dx: int, dy: int|
            0 <= dx < w && 0 <= dy < h ==> #[trigger] down[dy * w + dx]
                == up[upscale_source_index(dx, dy, k * w, k * h, w, h)],
    ensures
        down == p.subrange(0, w * h),
{
    assert forall|i: int| 0 <= i < w * h implies down[i] == p[i] by {
        let dy = i / w;
        let dx = i % w;
        vstd::arithmetic::div_mod::lemma_fundamental_div_mod(i, w);
        assert(0 <= dx < w);
        vstd::arithmetic::div_mod::lemma_div_pos_is_pos(i, w);
        assert(0 <= dy < h) by (nonlinear_arith)
            requires
                i == w * dy + dx,
                0 <= dx < w,
                0 <= dy,
                0 <= i < w * h,
                w >= 1,
        ;
        assert(i == dy * w + dx) by (nonlinear_arith)
            requires
                i == w * (i / w) + i % w,
                dy == i / w,
                dx == i % w,
        ;
        lemma_scale_up_down(dx, w, k);
        lemma_scale_up_down(dy, h, k);
        assert(upscale_source_index(dx, dy, k * w, k * h, w, h) == (dy * k) * (k * w) + dx * k);
        assert(up[(dy * k) * (k * w) + dx * k] == p[upscale_source_index(dx * k, dy * k, w, h, k * w, k * h)]);
        assert(upscale_source_index(dx * k, dy * k, w, h, k * w, k * h) == dy * w + dx);
        assert(down[dy * w + dx] == up[upscale_source_index(dx, dy, k * w, k * h, w, h)]);
    }
    assert(down =~= p.subrange(0, w * h));
}

/// A rasterised pose: `width` x `height` straight-alpha ARGB8888 pixels, row-major.
pub struct Rendered {
    pub pixels: Vec<u32>,
    pub width: u32,
    pub height: u32,
}

impl Rendered {
    /// The pose as plain values: pixels, width, height.
    pub open spec fn value(&self) -> (Seq<u32>, u32, u32) {
        (self.pixels@, self.width, self.height)
    }
}

/// A pose of at least one pixel each way whose pixels fill exactly its
/// `width` x `height` rectangle.
pub open spec fn pose_shaped(v: (Seq<u32>, u32, u32)) -> bool {
    &&& v.1 >= 1
    &&& v.2 >= 1
    &&& v.0.len() == v.1 * v.2
}

/// One call of `get_activity_frames` changes a cache at most by adding a
/// pose under a key it did not hold before.
pub open spec fn cache_step(
    before: Map<(Activity, u32), (Seq<u32>, u32, u32)>,
    after: Map<(Activity, u32), (Seq<u32>, u32, u32)>,
) -> bool {
    ||| after == before
    ||| exists|k: (Activity, u32), v: (Seq<u32>, u32, u32)|
        #![trigger before.insert(k, v)]
        !before.contains_key(k) && after == before.insert(k, v)
}

struct CacheEntry {
    activity: Activity,
    target: u32,
    rendered: Rendered,
}

impl CacheEntry {
    spec fn key(&self) -> (Activity, u32) {
        (self.activity, self.target)
    }
}

/// Rasterised poses, one per (activity, display size), so that each size
/// is rendered once.
pub struct RenderCache {
    entries: Vec<CacheEntry>,
}

impl View for RenderCache {
    type V = Map<(Activity, u32), (Seq<u32>, u32, u32)>;

    closed spec fn view(&self) -> Map<(Activity, u32), (Seq<u32>, u32, u32)> {
        Map::new(
            |k: (Activity, u32)| exists|i: int| 0 <= i < self.entries@.len() && #[trigger] self.entries@[i].key() == k,
            |k: (Activity, u32)|
                self.entries@[choose|i: int|
                    0 <= i < self.entries@.len() && #[trigger] self.entries@[i].key()
                        == k].rendered.value(),
        )
    }
}

impl RenderCache {
    #[verifier::type_invariant]
    spec fn keys_unique(&self) -> bool {
        &&& forall|i: int, j: int|
            0 <= i < self.entries@.len() && 0 <= j < self.entries@.len() && i != j
                ==> #[trigger] self.entries@[i].key() != #[trigger] self.entries@[j].key()
        &&& forall|i: int|
            0 <= i < self.entries@.len() ==> pose_shaped(#[trigger] self.entries@[i].rendered.value())
    }

    proof fn lemma_view_at(&self, i: int)
        requires
            self.keys_unique(),
            0 <= i < self.entries@.len(),
        ensures
            self@.contains_key(self.entries@[i].key()),
            self@[self.entries@[i].key()] == self.entries@[i].rendered.value(),
    {
        let k = self.entries@[i].key();
        assert(self@.dom().contains(k));
        let c = choose|j: int| 0 <= j < self.entries@.len() && #[trigger] self.entries@[j].key() == k;
        assert(c == i);
    }

    /// An empty cache.
    pub fn new() -> (r: RenderCache)
        ensures
            r@ == Map::<(Activity, u32), (Seq<u32>, u32, u32)>::empty(),
    {
        let r = RenderCache { entries: Vec::new() };
        assert(r@ =~= Map::<(Activity, u32), (Seq<u32>, u32, u32)>::empty());
        r
    }

    fn position(&self, activity: Activity, target: u32) -> (r: Option<usize>)
        ensures
            r matches Some(i) ==> i < self.entries@.len() && self.entries@[i as int].key() == (
                activity,
                target,
            ),
            r is None ==> forall|i: int|
                0 <= i < self.entries@.len() ==> #[trigger] self.entries@[i].key() != (activity, target),
    {
        let mut i: usize = 0;
        while i < self.entries.len()
            invariant
                i <= self.entries@.len(),
                forall|j: int| 0 <= j < i ==> #[trigger] self.entries@[j].key() != (activity, target),
            decreases self.entries@.len() - i,
        {
            if self.entries[i].activity == activity && self.entries[i].target == target {
                return Some(i);
            }
            i = i + 1;
        }
        None
    }

    /// The pose cached for `activity` at `target` pixels, if any.
    pub fn get(&self, activity: Activity, target: u32) -> (r: Option<&Rendered>)
        ensures
            r is Some <==> self@.contains_key((activity, target)),
            r matches Some(x) ==> x.value() == self@[(activity, target)],
            r matches Some(x) ==> pose_shaped(x.value()),
    {
        proof {
            use_type_invariant(self);
        }
        match self.position(activity, target) {
            Some(i) => {
                proof {
                    self.lemma_view_at(i as int);
                }
                Some(&self.entries[i].rendered)
            },
            None => {
                assert(!self@.contains_key((activity, target)));
                None
            },
        }
    }

    /// Caches `rendered` for `activity` at `target` pixels, replacing what
    /// was cached there before.
    pub fn insert(&mut self, activity: Activity, target: u32, rendered: Rendered)
        requires
            pose_shaped(rendered.value()),
        ensures
            final(self)@ == old(self)@.insert((activity, target), rendered.value()),
    {
        proof {
            use_type_invariant(&*self);
        }
        let ghost old_entries = self.entries@;
        let ghost value = rendered.value();
        let entry = CacheEntry { activity, target, rendered };
        let pos = self.position(activity, target);
        let mut entries: Vec<CacheEntry> = Vec::new();
        std::mem::swap(&mut entries, &mut self.entries);
        match pos {
            Some(i) => {
                entries.set(i, entry);
            },
            None => {
                entries.push(entry);
            },
        }
        self.entries = entries;
        proof {
            use_type_invariant(&*self);
            let k = (activity, target);
            let at: int = match pos {
                Some(i) => i as int,
                None => old_entries.len() as int,
            };
            assert(0 <= at < self.entries@.len() && self.entries@[at].key() == k);
            assert(self.entries@[at].rendered.value() == value);
            assert(forall|j: int|
                0 <= j < old_entries.len() && j != at ==> #[trigger] self.entries@[j] == old_entries[j]);
            assert(self.entries@.len() == old_entries.len() || (self.entries@.len() == old_entries.len() + 1 && at == old_entries.len()));
            let new_map = old(self)@.insert(k, value);
            assert forall|kk: (Activity, u32)| #[trigger] self@.contains_key(kk) <==> new_map.contains_key(kk) by {
                if self@.contains_key(kk) {
                    let j = choose|j: int| 0 <= j < self.entries@.len() && #[trigger] self.entries@[j].key() == kk;
                    if kk != k {
                        assert(old_entries[j].key() == kk);
                    }
                }
                if new_map.contains_key(kk) && kk != k {
                    let j = choose|j: int| 0 <= j < old_entries.len() && #[trigger] old_entries[j].key() == kk;
                    assert(self.entries@[j].key() == kk);
                }
                if kk == k {
                    assert(self.entries@[at].key() == kk);
                }
            }
            assert forall|kk: (Activity, u32)| #[trigger] self@.contains_key(kk) implies self@[kk] == new_map[kk] by {
                let j = choose|j: int| 0 <= j < self.entries@.len() && #[trigger] self.entries@[j].key() == kk;
                self.lemma_view_at(j);
                if kk == k {
                    assert(j == at);
                } else {
                    assert(old_entries[j].key() == kk);
                    assert(old_entries[j] == self.entries@[j]);
                    old(self).lemma_view_at(j);
                }
            }
            assert(self@ =~= new_map);
        }
    }

    /// The frames of the pose cached for `activity` at `target` pixels:
    /// a single frame, with the pose's width and height.
    pub fn frames(&self, activity: Activity, target: u32) -> (r: Option<(Vec<Vec<u32>>, u32, u32)>)
        ensures
            r is Some <==> self@.contains_key((activity, target)),
            r matches Some(f) ==> {
                &&& f.0@.len() == 1
                &&& (f.0@[0]@, f.1, f.2) == self@[(activity, target)]
                &&& pose_shaped((f.0@[0]@, f.1, f.2))
            },
    {
        match self.get(activity, target) {
            Some(entry) => {
                let pixels = entry.pixels.clone();
                assert(pixels@ =~= entry.pixels@);
                let mut frames: Vec<Vec<u32>> = Vec::new();
                frames.push(pixels);
                Some((frames, entry.width, entry.height))
            },
            None => None,
        }
    }
}

/// Once a pose is cached it stays cached, unchanged, through any number of
/// further `get_activity_frames` calls (each of which is a `cache_step`):
/// so a repeated call for the same name and size gives back exactly what
/// the first call gave.
pub proof fn lemma_cached_pose_persists(
    states: Seq<Map<(Activity, u32), (Seq<u32>, u32, u32)>>,
    key: (Activity, u32),
)
    requires
        states.len() >= 1,
        states[0].contains_key(key),
        forall|i: int| 0 <= i < states.len() - 1 ==> cache_step(#[trigger] states[i], states[i + 1]),
    ensures
        states.last().contains_key(key),
        states.last()[key] == states[0][key],
    decreases states.len(),
{
    if states.len() > 1 {
        let prefix = states.drop_last();
        assert forall|i: int| 0 <= i < prefix.len() - 1 implies cache_step(#[trigger] prefix[i], prefix[i + 1]) by {
            assert(prefix[i] == states[i] && prefix[i + 1] == states[i + 1]);
        }
        lemma_cached_pose_persists(prefix, key);
        let m = states[states.len() - 2];
        assert(m == prefix.last());
        assert(cache_step(m, states.last()));
        if states.last() != m {
            let (k, v) = choose|k: (Activity, u32), v: (Seq<u32>, u32, u32)|
                #![trigger m.insert(k, v)]
                !m.contains_key(k) && states.last() == m.insert(k, v);
            assert(k != key);
        }
    }
}

/// Looking a pose up right after caching it gives back what was cached;
/// caching never changes what is cached under another key.
pub proof fn lemma_cache_read_after_write(
    before: Map<(Activity, u32), (Seq<u32>, u32, u32)>,
    key: (Activity, u32),
    value: (Seq<u32>, u32, u32),
    other: (Activity, u32),
)
    requires
        other != key,
    ensures
        before.insert(key, value).contains_key(key),
        before.insert(key, value)[key] == value,
        before.insert(key, value).contains_key(other) == before.contains_key(other),
        before.contains_key(other) ==> before.insert(key, value)[other] == before[other],
{
}

/// The rendered frames for the activity called `name` at display size
/// `target`, rendering (with `render`) and caching the pose on first use.
/// Poses are single-frame, so a result holds exactly one frame of
/// `width * height` pixels. Unknown names give `None` without rendering;
/// a pose already cached is not rendered again; a failed render gives
/// `None` and caches nothing.
pub fn get_activity_frames<F: FnOnce(Activity, u32) -> Option<Rendered>>(
    cache: &mut RenderCache,
    name: &str,
    target: u32,
    render: F,
) -> (r: Option<(Vec<Vec<u32>>, u32, u32)>)
    requires
        named_activity(name@) is Some ==> call_requires(
            render,
            (named_activity(name@)->0, target),
        ),
        named_activity(name@) is Some ==> forall|out: Option<Rendered>|
            #![trigger call_ensures(render, (named_activity(name@)->0, target), out)]
            call_ensures(render, (named_activity(name@)->0, target), out) && out is Some
                ==> pose_shaped(out->0.value()),
    ensures
        cache_step(old(cache)@, final(cache)@),
        r is Some ==> {
            &&& named_activity(name@) is Some
            &&& (r->0).0@.len() == 1
            &&& final(cache)@.contains_key((named_activity(name@)->0, target))
            &&& ((r->0).0@[0]@, (r->0).1, (r->0).2) == final(cache)@[(
                named_activity(name@)->0,
                target,
            )]
            &&& pose_shaped(((r->0).0@[0]@, (r->0).1, (r->0).2))
        },
        named_activity(name@) is None ==> r is None && final(cache)@ == old(cache)@,
        named_activity(name@) is Some ==> ({
            let key = (named_activity(name@)->0, target);
            &&& old(cache)@.contains_key(key) ==> {
                &&& final(cache)@ == old(cache)@
                &&& r is Some
                &&& (r->0).0@.len() == 1
                &&& ((r->0).0@[0]@, (r->0).1, (r->0).2) == old(cache)@[key]
            }
            &&& !old(cache)@.contains_key(key) ==> exists|out: Option<Rendered>|
                #![trigger call_ensures(render, key, out)]
                call_ensures(render, key, out) && match out {
                    Some(x) => {
                        &&& final(cache)@ == old(cache)@.insert(key, x.value())
                        &&& r is Some
                        &&& (r->0).0@.len() == 1
                        &&& ((r->0).0@[0]@, (r->0).1, (r->0).2) == x.value()
                    },
                    None => r is None && final(cache)@ == old(cache)@,
                }
        }),
{
    let activity = match Activity::from_name(name) {
        Some(a) => a,
        None => return None,
    };
    if cache.get(activity, target).is_none() {
        let out = render(activity, target);
        match out {
            Some(rendered) => {
                let ghost before = cache@;
                let ghost v = rendered.value();
                cache.insert(activity, target, rendered);
                assert(cache_step(before, cache@)) by {
                    assert(!before.contains_key((activity, target)));
                    assert(cache@ == before.insert((activity, target), v));
                }
            },
            None => {
                return None;
            },
        }
    }
    cache.frames(activity, target)
}

} // verus!
