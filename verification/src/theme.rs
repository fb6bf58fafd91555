//! Pre-rendered pose sheets: building one sheet per pose out of its
//! rescaled frames, and looking a pose up with the daemon's fallbacks.

use vstd::prelude::*;
use crate::state::AnimationFrame;
use crate::assets::{Activity, activity_index, named_activity, upscale_frame, upscale_fits,
    upscale_fits_check, upscale_source_index};

verus! {

/// One pose's frames laid side by side, `sheet_w` x `sheet_h` pixels.
pub struct CachedSheet {
    pub pixels: Vec<u32>,
    pub sheet_w: u32,
    pub sheet_h: u32,
}

/// A loaded pose: its sheet and where each frame sits in it.
pub struct ThemeActivity {
    pub sheet: CachedSheet,
    pub frames: Vec<AnimationFrame>,
}

/// Index of pixel (`x`, `y`) of frame `i` in a sheet of frames `fw` wide
/// laid side by side in a row `sheet_w` wide.
pub open spec fn sheet_index(sheet_w: int, fw: int, i: int, x: int, y: int) -> int {
    y * sheet_w + i * fw + x
}

/// The sheet built from `frames` (each `base_w` x `base_h`) rescaled to
/// `fw` x `fh`: frame `i` occupies columns `i * fw .. (i + 1) * fw`, and
/// the frame list names those rectangles.
pub open spec fn is_sheet_of(
    t: ThemeActivity,
    frames: Seq<Seq<u32>>,
    base_w: int,
    base_h: int,
    fw: int,
    fh: int,
) -> bool {
    let n = frames.len() as int;
    &&& t.sheet.sheet_w == fw * n
    &&& t.sheet.sheet_h == fh
    &&& t.sheet.pixels@.len() == fw * n * fh
    &&& forall|i: int, x: int, y: int|
        0 <= i < n && 0 <= x < fw && 0 <= y < fh ==> #[trigger] t.sheet.pixels@[sheet_index(
            fw * n,
            fw,
            i,
            x,
            y,
        )] == frames[i][upscale_source_index(x, y, base_w, base_h, fw, fh)]
    &&& t.frames@.len() == n
    &&& forall|i: int|
        0 <= i < n ==> #[trigger] t.frames@[i] == (AnimationFrame {
            x: (i * fw) as u32,
            y: 0,
            width: fw as u32,
            height: fh as u32,
        })
}

proof fn lemma_sheet_order(sw: int, fw: int, n: int, fh: int, i1: int, x1: int, y1: int, i2: int, x2: int, y2: int)
    requires
        sw == fw * n,
        0 <= i1 < n,
        0 <= x1 < fw,
        0 <= y1 < fh,
        0 <= i2 < n,
        0 <= x2 < fw,
        0 <= y2 < fh,
        y1 < y2 || (y1 == y2 && (i1 < i2 || (i1 == i2 && x1 < x2))),
    ensures
        0 <= sheet_index(sw, fw, i1, x1, y1) < sheet_index(sw, fw, i2, x2, y2),
{
    assert(0 <= i1 * fw + x1 < sw) by (nonlinear_arith)
        requires
            sw == fw * n,
            0 <= i1 < n,
            0 <= x1 < fw,
    ;
    assert(0 <= y1 * sw) by (nonlinear_arith)
        requires
            0 <= y1,
            0 <= sw,
    ;
    if y1 < y2 {
        assert(y1 * sw + sw <= y2 * sw) by (nonlinear_arith)
            requires
                y1 < y2,
                0 <= sw,
        ;
        assert(0 <= i2 * fw + x2) by (nonlinear_arith)
            requires
                0 <= i2,
                0 <= x2,
                0 <= fw,
        ;
    } else if i1 < i2 {
        assert(i1 * fw + fw <= i2 * fw) by (nonlinear_arith)
            requires
                i1 < i2,
                0 <= fw,
        ;
    }
}

proof fn lemma_sheet_bound(sw: int, fw: int, n: int, fh: int, i: int, x: int, y: int)
    requires
        sw == fw * n,
        0 <= i < n,
        0 <= x < fw,
        0 <= y < fh,
    ensures
        0 <= sheet_index(sw, fw, i, x, y) < sw * fh,
        i * fw + fw <= sw,
{
    assert(0 <= i * fw + x < sw && i * fw + fw <= sw) by (nonlinear_arith)
        requires
            sw == fw * n,
            0 <= i < n,
            0 <= x < fw,
    ;
    assert(0 <= y * sw && y * sw + sw <= fh * sw) by (nonlinear_arith)
        requires
            0 <= y < fh,
            0 <= sw,
    ;
}

/// Lays the `frames` of a pose (each `base_w` x `base_h`), rescaled to
/// `frame_w` x `frame_h`, side by side into one sheet, and lists where each
/// frame sits.
pub fn build_activity_sheet(
    frames: &Vec<Vec<u32>>,
    base_w: u32,
    base_h: u32,
    frame_w: u32,
    frame_h: u32,
) -> (r: ThemeActivity)
    requires
        forall|i: int|
            0 <= i < frames@.len() ==> upscale_fits(
                #[trigger] frames@[i]@.len() as int,
                base_w as int,
                base_h as int,
                frame_w as int,
                frame_h as int,
            ),
        frames@.len() * frame_w * frame_h <= u32::MAX,
        frames@.len() * frame_w <= u32::MAX,
        frames@.len() <= u32::MAX,
    ensures
        is_sheet_of(
            r,
            frames@.map_values(|f: Vec<u32>| f@),
            base_w as int,
            base_h as int,
            frame_w as int,
            frame_h as int,
        ),
{
    let ghost fs = frames@.map_values(|f: Vec<u32>| f@);
    let n = frames.len();
    let ghost ni = n as int;
    let ghost fw = frame_w as int;
    let ghost fh = frame_h as int;
    let mut upscaled: Vec<Vec<u32>> = Vec::new();
    let mut list: Vec<AnimationFrame> = Vec::new();
    let mut k: usize = 0;
    while k < n
        invariant
            n == frames@.len(),
            k <= n,
            fs == frames@.map_values(|f: Vec<u32>| f@),
            forall|i: int|
                0 <= i < frames@.len() ==> upscale_fits(
                    #[trigger] frames@[i]@.len() as int,
                    base_w as int,
                    base_h as int,
                    frame_w as int,
                    frame_h as int,
                ),
            frames@.len() * frame_w <= u32::MAX,
            n <= u32::MAX,
            upscaled@.len() == k,
            list@.len() == k,
            forall|i: int|
                0 <= i < k ==> (#[trigger] upscaled@[i])@.len() == frame_w * frame_h,
            forall|i: int, x: int, y: int|
                0 <= i < k && 0 <= x < frame_w && 0 <= y < frame_h ==> #[trigger] upscaled@[i]@[y
                    * frame_w + x] == fs[i][upscale_source_index(
                    x,
                    y,
                    base_w as int,
                    base_h as int,
                    frame_w as int,
                    frame_h as int,
                )],
            forall|i: int|
                0 <= i < k ==> #[trigger] list@[i] == (AnimationFrame {
                    x: (i * frame_w) as u32,
                    y: 0,
                    width: frame_w,
                    height: frame_h,
                }),
        decreases n - k,
    {
        let scaled = upscale_frame(frames[k].as_slice(), base_w, base_h, frame_w, frame_h);
        upscaled.push(scaled);
        assert(k * frame_w <= n * frame_w) by (nonlinear_arith)
            requires
                k < n,
        ;
        list.push(AnimationFrame { x: k as u32 * frame_w, y: 0, width: frame_w, height: frame_h });
        k = k + 1;
    }
    let sheet_w = frame_w * n as u32;
    assert(sheet_w * frame_h == n * frame_w * frame_h) by (nonlinear_arith)
        requires
            sheet_w == frame_w * n,
    ;
    let mut pixels: Vec<u32> = Vec::new();
    let mut y: u32 = 0;
    while y < frame_h
        invariant
            n == frames@.len(),
            upscaled@.len() == n,
            sheet_w == frame_w * n,
            sheet_w * frame_h <= u32::MAX,
            y <= frame_h,
            pixels@.len() == y * sheet_w,
            forall|i: int|
                0 <= i < n ==> (#[trigger] upscaled@[i])@.len() == frame_w * frame_h,
            forall|i: int, x: int, yy: int|
                0 <= i < n && 0 <= x < frame_w && 0 <= yy < y ==> #[trigger] pixels@[sheet_index(
                    sheet_w as int,
                    frame_w as int,
                    i,
                    x,
                    yy,
                )] == upscaled@[i]@[yy * frame_w + x],
        decreases frame_h - y,
    {
        let mut i: usize = 0;
        while i < n
            invariant
                n == frames@.len(),
                upscaled@.len() == n,
                sheet_w == frame_w * n,
                sheet_w * frame_h <= u32::MAX,
                y < frame_h,
                i <= n,
                pixels@.len() == y * sheet_w + i * frame_w,
                forall|j: int|
                    0 <= j < n ==> (#[trigger] upscaled@[j])@.len() == frame_w * frame_h,
                forall|j: int, x: int, yy: int|
                    0 <= j < n && 0 <= x < frame_w && 0 <= yy < frame_h && (yy < y || (yy == y
                        && j < i)) ==> #[trigger] pixels@[sheet_index(
                        sheet_w as int,
                        frame_w as int,
                        j,
                        x,
                        yy,
                    )] == upscaled@[j]@[yy * frame_w + x],
            decreases n - i,
        {
            let mut x: u32 = 0;
            while x < frame_w
                invariant
                    n == frames@.len(),
                    upscaled@.len() == n,
                    sheet_w == frame_w * n,
                    sheet_w * frame_h <= u32::MAX,
                    y < frame_h,
                    i < n,
                    x <= frame_w,
                    pixels@.len() == y * sheet_w + i * frame_w + x,
                    forall|j: int|
                        0 <= j < n ==> (#[trigger] upscaled@[j])@.len() == frame_w * frame_h,
                    forall|j: int, xx: int, yy: int|
                        0 <= j < n && 0 <= xx < frame_w && 0 <= yy < frame_h && (yy < y || (yy
                            == y && (j < i || (j == i && xx < x)))) ==> #[trigger] pixels@[sheet_index(
                            sheet_w as int,
                            frame_w as int,
                            j,
                            xx,
                            yy,
                        )] == upscaled@[j]@[yy * frame_w + xx],
                decreases frame_w - x,
            {
                proof {
                    lemma_sheet_bound(sheet_w as int, frame_w as int, n as int, frame_h as int, i as int, x as int, y as int);
                    assert(frame_w * frame_h <= sheet_w * frame_h) by (nonlinear_arith)
                        requires
                            sheet_w == frame_w * n,
                            i < n,
                    ;
                    assert(0 <= y * frame_w + x < frame_w * frame_h) by (nonlinear_arith)
                        requires
                            0 <= y < frame_h,
                            0 <= x < frame_w,
                    ;
                }
                let v = upscaled[i][(y * frame_w + x) as usize];
                let ghost before = pixels@;
                pixels.push(v);
                proof {
                    assert forall|j: int, xx: int, yy: int|
                        0 <= j < n && 0 <= xx < frame_w && 0 <= yy < frame_h && (yy < y || (yy
                            == y && (j < i || (j == i && xx < x + 1)))) implies #[trigger] pixels@[sheet_index(
                            sheet_w as int,
                            frame_w as int,
                            j,
                            xx,
                            yy,
                        )] == upscaled@[j]@[yy * frame_w + xx] by {
                        if yy != y || j != i || xx != x {
                            lemma_sheet_order(sheet_w as int, frame_w as int, n as int, frame_h as int, j, xx, yy, i as int, x as int, y as int);
                        }
                    }
                }
                x = x + 1;
            }
            proof {
                assert(pixels@.len() == y * sheet_w + (i + 1) * frame_w) by (nonlinear_arith)
                    requires
                        pixels@.len() == y * sheet_w + i * frame_w + frame_w,
                ;
            }
            i = i + 1;
        }
        proof {
            assert(pixels@.len() == (y + 1) * sheet_w) by (nonlinear_arith)
                requires
                    pixels@.len() == y * sheet_w + n * frame_w,
                    sheet_w == frame_w * n,
            ;
        }
        y = y + 1;
    }
    let r = ThemeActivity {
        sheet: CachedSheet { pixels, sheet_w, sheet_h: frame_h },
        frames: list,
    };
    proof {
        assert(pixels@.len() == frame_w * n * frame_h) by (nonlinear_arith)
            requires
                pixels@.len() == frame_h * sheet_w,
                sheet_w == frame_w * n,
        ;
        assert forall|i: int, x: int, yy: int|
            0 <= i < n && 0 <= x < frame_w && 0 <= yy < frame_h implies #[trigger] r.sheet.pixels@[sheet_index(
                fw * ni,
                fw,
                i,
                x,
                yy,
            )] == fs[i][upscale_source_index(x, yy, base_w as int, base_h as int, fw, fh)] by {
            assert(sheet_index(fw * ni, fw, i, x, yy) == sheet_index(sheet_w as int, frame_w as int, i, x, yy));
        }
    }
    r
}

/// Whether `build_activity_sheet` may be called on these frames and sizes:
/// every frame can be rescaled, and the sheet's width, its pixel count and
/// the number of frames fit in a `u32`.
pub fn sheet_fits(frames: &Vec<Vec<u32>>, base_w: u32, base_h: u32, frame_w: u32, frame_h: u32) -> (r:
    bool)
    ensures
        r <==> {
            &&& forall|i: int|
                0 <= i < frames@.len() ==> upscale_fits(
                    #[trigger] frames@[i]@.len() as int,
                    base_w as int,
                    base_h as int,
                    frame_w as int,
                    frame_h as int,
                )
            &&& frames@.len() * frame_w * frame_h <= u32::MAX
            &&& frames@.len() * frame_w <= u32::MAX
            &&& frames@.len() <= u32::MAX
        },
{
    let n = frames.len();
    if n > 0xFFFF_FFFFusize {
        return false;
    }
    let n64: u64 = n as u64;
    let fw: u64 = frame_w as u64;
    let fh: u64 = frame_h as u64;
    proof {
        assert(n64 * fw <= 0xFFFF_FFFF * 0xFFFF_FFFF) by (nonlinear_arith)
            requires
                n64 <= 0xFFFF_FFFF,
                fw <= 0xFFFF_FFFF,
        ;
    }
    if n64 * fw > 0xFFFF_FFFFu64 {
        return false;
    }
    let nw: u64 = n64 * fw;
    proof {
        assert(nw * fh <= 0xFFFF_FFFF * 0xFFFF_FFFF) by (nonlinear_arith)
            requires
                nw <= 0xFFFF_FFFF,
                fh <= 0xFFFF_FFFF,
        ;
    }
    if nw * fh > 0xFFFF_FFFFu64 {
        return false;
    }
    let mut k: usize = 0;
    while k < n
        invariant
            n == frames@.len(),
            k <= n,
            forall|i: int|
                0 <= i < k ==> upscale_fits(
                    #[trigger] frames@[i]@.len() as int,
                    base_w as int,
                    base_h as int,
                    frame_w as int,
                    frame_h as int,
                ),
        decreases n - k,
    {
        if !upscale_fits_check(frames[k].len(), base_w, base_h, frame_w, frame_h) {
            return false;
        }
        k = k + 1;
    }
    true
}

/// Number of loaded slots in `slots`.
pub open spec fn count_loaded(slots: Seq<Option<ThemeActivity>>) -> nat
    decreases slots.len(),
{
    if slots.len() == 0 {
        0
    } else {
        count_loaded(slots.drop_last()) + if slots.last() is Some {
            1nat
        } else {
            0nat
        }
    }
}

/// The poses a daemon has pre-rendered, one optional sheet per pose.
pub struct ThemeRenderer {
    slots: Vec<Option<ThemeActivity>>,
}

impl ThemeRenderer {
    /// One slot per pose.
    pub closed spec fn wf(&self) -> bool {
        self.slots@.len() == 8
    }

    /// What is loaded for pose `a`.
    pub closed spec fn slot(&self, a: Activity) -> Option<ThemeActivity> {
        self.slots@[activity_index(a)]
    }

    /// How many poses are loaded.
    pub closed spec fn loaded(&self) -> nat {
        count_loaded(self.slots@)
    }

    /// The pose a lookup of `named` ends up at: that pose when it is
    /// loaded, otherwise "walker", otherwise "action0".
    pub open spec fn resolve(&self, named: Option<Activity>) -> Option<Activity> {
        if named is Some && self.slot(named->0) is Some {
            named
        } else if self.slot(Activity::Walker) is Some {
            Some(Activity::Walker)
        } else if self.slot(Activity::Action0) is Some {
            Some(Activity::Action0)
        } else {
            None
        }
    }

    /// A renderer with nothing loaded.
    pub fn new() -> (r: ThemeRenderer)
        ensures
            r.wf(),
            forall|a: Activity| #[trigger] r.slot(a) is None,
            r.loaded() == 0,
    {
        let mut slots: Vec<Option<ThemeActivity>> = Vec::new();
        let mut i: usize = 0;
        while i < 8
            invariant
                i <= 8,
                slots@.len() == i,
                forall|j: int| 0 <= j < i ==> #[trigger] slots@[j] is None,
            decreases 8 - i,
        {
            slots.push(None);
            i = i + 1;
        }
        let r = ThemeRenderer { slots };
        proof {
            assert forall|a: Activity| #[trigger] r.slot(a) is None by {
                assert(0 <= activity_index(a) < 8);
            }
            lemma_count_none(r.slots@);
        }
        r
    }

    /// Loads `t` as pose `a`, replacing what was loaded for it.
    pub fn insert(&mut self, a: Activity, t: ThemeActivity)
        requires
            old(self).wf(),
        ensures
            final(self).wf(),
            final(self).slot(a) == Some(t),
            forall|b: Activity| b != a ==> #[trigger] final(self).slot(b) == old(self).slot(b),
            final(self).loaded() == old(self).loaded() + if old(self).slot(a) is Some {
                0int
            } else {
                1int
            },
    {
        let ghost old_slots = self.slots@;
        let idx: usize = match a {
            Activity::Action0 => 0,
            Activity::Walker => 1,
            Activity::Climber => 2,
            Activity::Faller => 3,
            Activity::Tumbler => 4,
            Activity::Floater => 5,
            Activity::Splatted => 6,
            Activity::Angel => 7,
        };
        self.slots.set(idx, Some(t));
        proof {
            assert forall|b: Activity| b != a implies #[trigger] self.slot(b) == old_slots[activity_index(b)] by {
                assert(activity_index(b) != activity_index(a));
            }
            lemma_count_update(old_slots, idx as int, Some(t));
        }
    }

    /// Number of loaded poses.
    pub fn len(&self) -> (r: usize)
        requires
            self.wf(),
        ensures
            r == self.loaded(),
    {
        let mut c: usize = 0;
        let mut i: usize = 0;
        while i < self.slots.len()
            invariant
                i <= self.slots@.len(),
                self.slots@.len() == 8,
                c == count_loaded(self.slots@.subrange(0, i as int)),
                c <= i,
            decreases self.slots@.len() - i,
        {
            proof {
                assert(self.slots@.subrange(0, i + 1).drop_last() =~= self.slots@.subrange(0, i as int));
            }
            if self.slots[i].is_some() {
                c = c + 1;
            }
            i = i + 1;
        }
        proof {
            assert(self.slots@.subrange(0, 8) =~= self.slots@);
        }
        c
    }

    /// No pose is loaded.
    pub fn is_empty(&self) -> (r: bool)
        requires
            self.wf(),
        ensures
            r == (self.loaded() == 0),
    {
        self.len() == 0
    }

    fn lookup(&self, activity: &str) -> (r: Option<&ThemeActivity>)
        requires
            self.wf(),
        ensures
            r matches Some(t) ==> self.resolve(named_activity(activity@)) matches Some(a)
                && self.slot(a) == Some(*t),
            r is None ==> self.resolve(named_activity(activity@)) is None,
    {
        let named = Activity::from_name(activity);
        if let Some(a) = named {
            let idx: usize = match a {
                Activity::Action0 => 0,
                Activity::Walker => 1,
                Activity::Climber => 2,
                Activity::Faller => 3,
                Activity::Tumbler => 4,
                Activity::Floater => 5,
                Activity::Splatted => 6,
                Activity::Angel => 7,
            };
            if let Some(t) = &self.slots[idx] {
                return Some(t);
            }
        }
        if let Some(t) = &self.slots[1] {
            assert(activity_index(Activity::Walker) == 1);
            return Some(t);
        }
        if let Some(t) = &self.slots[0] {
            assert(activity_index(Activity::Action0) == 0);
            return Some(t);
        }
        assert(activity_index(Activity::Walker) == 1);
        assert(activity_index(Activity::Action0) == 0);
        None
    }

    /// The sheet of the pose called `activity`, falling back to "walker"
    /// and then "action0" when it is not loaded.
    pub fn activity_sheet(&self, activity: &str) -> (r: &CachedSheet)
        requires
            self.wf(),
            self.resolve(named_activity(activity@)) is Some,
        ensures
            *r == self.slot(self.resolve(named_activity(activity@))->0)->0.sheet,
    {
        let t = self.lookup(activity).unwrap();
        &t.sheet
    }

    /// The frame list of the pose called `activity`, with the same fallbacks.
    pub fn activity_frames(&self, activity: &str) -> (r: &[AnimationFrame])
        requires
            self.wf(),
            self.resolve(named_activity(activity@)) is Some,
        ensures
            r@ == self.slot(self.resolve(named_activity(activity@))->0)->0.frames@,
    {
        let t = self.lookup(activity).unwrap();
        t.frames.as_slice()
    }
}

proof fn lemma_count_none(s: Seq<Option<ThemeActivity>>)
    requires
        forall|i: int| 0 <= i < s.len() ==> #[trigger] s[i] is None,
    ensures
        count_loaded(s) == 0,
    decreases s.len(),
{
    if s.len() > 0 {
        lemma_count_none(s.drop_last());
    }
}

proof fn lemma_count_update(s: Seq<Option<ThemeActivity>>, i: int, v: Option<ThemeActivity>)
    requires
        0 <= i < s.len(),
    ensures
        count_loaded(s.update(i, v)) == count_loaded(s) - (if s[i] is Some {
            1int
        } else {
            0int
        }) + (if v is Some {
            1int
        } else {
            0int
        }),
    decreases s.len(),
{
    if i == s.len() - 1 {
        assert(s.update(i, v).drop_last() =~= s.drop_last());
    } else {
        lemma_count_update(s.drop_last(), i, v);
        assert(s.update(i, v).drop_last() =~= s.drop_last().update(i, v));
    }
}

} // verus!
