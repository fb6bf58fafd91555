//! Compositing sprite-sheet frames into a pet's pixel buffer.

use vstd::prelude::*;
use crate::pixel::{alpha_blend, spec_alpha_blend, alpha_of, lemma_blend_over_clear};
use crate::state::AnimationFrame;

verus! {

/// `v as i32` for a `u32` value `v`, read as an integer.
pub open spec fn as_i32(v: int) -> int {
    if v < 0x8000_0000 { v } else { v - 0x1_0000_0000 }
}

/// `v as u32` for an `i32` value `v`, read as an integer.
pub open spec fn as_u32(v: int) -> int {
    if v >= 0 { v } else { v + 0x1_0000_0000 }
}

/// The target coordinate that source offset `i` is drawn at: `(i as i32 + offset) as u32`.
pub open spec fn shifted(i: int, offset: int) -> int {
    as_u32(as_i32(i) + offset)
}

/// Where and how one frame of a sprite sheet is drawn into a target buffer.
pub struct Placement {
    pub frame: AnimationFrame,
    pub source_w: u32,
    pub target_w: u32,
    pub target_h: u32,
    pub flip: bool,
    pub offset_x: i32,
    pub offset_y: i32,
}

impl Placement {
    /// Columns of the frame that are visited (the frame, cut to the target width).
    pub open spec fn draw_w(self) -> int {
        vstd::math::min(self.frame.width as int, self.target_w as int)
    }

    /// Rows of the frame that are visited.
    pub open spec fn draw_h(self) -> int {
        vstd::math::min(self.frame.height as int, self.target_h as int)
    }

    /// Sheet column that frame column `x` reads; mirrored when flipping.
    pub open spec fn source_x(self, x: int) -> int {
        if self.flip {
            self.frame.x + (self.frame.width - 1 - x)
        } else {
            self.frame.x + x
        }
    }

    /// Index into the sheet of frame pixel (`x`, `y`).
    pub open spec fn source_index(self, x: int, y: int) -> int {
        (self.frame.y + y) * self.source_w + self.source_x(x)
    }

    /// Index into the target of frame pixel (`x`, `y`).
    pub open spec fn target_index(self, x: int, y: int) -> int {
        shifted(y, self.offset_y as int) * self.target_w + shifted(x, self.offset_x as int)
    }

    /// Frame row `y` is visited and falls inside the target.
    pub open spec fn row_lands(self, y: int) -> bool {
        0 <= y < self.draw_h() && shifted(y, self.offset_y as int) < self.target_h
    }

    /// Frame pixel (`x`, `y`) is visited and falls inside the target.
    pub open spec fn lands(self, x: int, y: int) -> bool {
        &&& self.row_lands(y)
        &&& 0 <= x < self.draw_w()
        &&& shifted(x, self.offset_x as int) < self.target_w
    }

    /// Frame pixel (`x`, `y`) is blended into the target: it lands, and both
    /// indices fall inside the buffers.
    pub open spec fn copies(self, source_len: int, target_len: int, x: int, y: int) -> bool {
        &&& self.lands(x, y)
        &&& self.source_index(x, y) < source_len
        &&& self.target_index(x, y) < target_len
    }

    /// The arithmetic for frame row `y` stays inside its integer types.
    pub open spec fn row_fits(self, y: int) -> bool {
        &&& self.frame.y + y <= u32::MAX
        &&& i32::MIN <= as_i32(y) + self.offset_y <= i32::MAX
    }

    /// The arithmetic for frame pixel (`x`, `y`) of a landing row stays
    /// inside its integer types.
    pub open spec fn pixel_fits(self, source_len: int, x: int, y: int) -> bool {
        &&& self.source_x(x) <= u32::MAX
        &&& i32::MIN <= as_i32(x) + self.offset_x <= i32::MAX
        &&& shifted(x, self.offset_x as int) < self.target_w ==> {
            &&& self.source_index(x, y) <= u32::MAX
            &&& self.source_index(x, y) < source_len ==> self.target_index(x, y) <= u32::MAX
        }
    }

    /// No arithmetic of the compositing loop leaves its integer type on
    /// these inputs (the inputs on which compositing does not panic).
    pub open spec fn fits(self, source_len: int) -> bool {
        &&& forall|y: int| 0 <= y < self.draw_h() ==> #[trigger] self.row_fits(y)
        &&& forall|x: int, y: int|
            self.row_lands(y) && 0 <= x < self.draw_w() ==> #[trigger] self.pixel_fits(
                source_len,
                x,
                y,
            )
    }
}

/// The placement of `frame` that `composite_frame` draws with these arguments.
pub open spec fn placement(
    frame: AnimationFrame,
    source_w: u32,
    target_w: u32,
    target_h: u32,
    flip: bool,
    offset_x: i32,
    offset_y: i32,
) -> Placement {
    Placement { frame, source_w, target_w, target_h, flip, offset_x, offset_y }
}

/// The target after `p` is composited onto `old`: every copied frame pixel
/// is blended over the pixel it lands on, every other pixel is unchanged.
pub open spec fn composited(p: Placement, source: Seq<u32>, old: Seq<u32>, new: Seq<u32>) -> bool {
    &&& new.len() == old.len()
    &&& forall|x: int, y: int|
        #![trigger p.target_index(x, y)]
        p.copies(source.len() as int, old.len() as int, x, y) ==> new[p.target_index(x, y)]
            == spec_alpha_blend(source[p.source_index(x, y)], old[p.target_index(x, y)])
    &&& forall|i: int|
        0 <= i < old.len() && (forall|x: int, y: int|
            #![trigger p.target_index(x, y)]
            p.copies(source.len() as int, old.len() as int, x, y) ==> p.target_index(x, y)
                != i) ==> new[i] == old[i]
}

/// `v as i32`, computed without a wrapping cast.
fn to_i32(v: u32) -> (r: i32)
    ensures
        r == as_i32(v as int),
{
    if v < 0x8000_0000 {
        v as i32
    } else {
        (v - 0x8000_0000) as i32 + i32::MIN
    }
}

/// `v as u32`, computed without a wrapping cast.
fn to_u32(v: i32) -> (r: u32)
    ensures
        r == as_u32(v as int),
{
    if v >= 0 {
        v as u32
    } else {
        (v - i32::MIN) as u32 + 0x8000_0000
    }
}

/// Two distinct landing pixels never share a target index.
proof fn lemma_target_index_injective(p: Placement, x1: int, y1: int, x2: int, y2: int)
    requires
        p.lands(x1, y1),
        p.lands(x2, y2),
        i32::MIN <= as_i32(y1) + p.offset_y <= i32::MAX,
        i32::MIN <= as_i32(y2) + p.offset_y <= i32::MAX,
        i32::MIN <= as_i32(x1) + p.offset_x <= i32::MAX,
        i32::MIN <= as_i32(x2) + p.offset_x <= i32::MAX,
        0 <= y1 <= u32::MAX,
        0 <= y2 <= u32::MAX,
        0 <= x1 <= u32::MAX,
        0 <= x2 <= u32::MAX,
        p.target_index(x1, y1) == p.target_index(x2, y2),
    ensures
        x1 == x2,
        y1 == y2,
{
    let w = p.target_w as int;
    let a = shifted(y1, p.offset_y as int);
    let b = shifted(x1, p.offset_x as int);
    let c = shifted(y2, p.offset_y as int);
    let d = shifted(x2, p.offset_x as int);
    assert(a >= 0 && c >= 0 && 0 <= b < w && 0 <= d < w);
    assert(a == c && b == d) by {
        if a < c {
            assert(a * w + b < c * w + d) by (nonlinear_arith)
                requires
                    a < c,
                    0 <= b < w,
                    0 <= d,
            ;
        } else if c < a {
            assert(c * w + d < a * w + b) by (nonlinear_arith)
                requires
                    c < a,
                    0 <= d < w,
                    0 <= b,
            ;
        }
    }
}

/// Composites `frame` of the sheet `source_pixels` (rows of `source_w`
/// pixels) onto `target_pixels` (rows of `target_w` pixels), mirrored when
/// `flip_horizontal`, shifted by (`offset_x`, `offset_y`), clipped to the
/// target and to both buffers.
#[verifier::rlimit(50)]
pub fn composite_frame(
    source_pixels: &[u32],
    source_w: u32,
    _source_h: u32,
    frame: &AnimationFrame,
    target_pixels: &mut [u32],
    target_w: u32,
    target_h: u32,
    flip_horizontal: bool,
    offset_x: i32,
    offset_y: i32,
)
    requires
        placement(*frame, source_w, target_w, target_h, flip_horizontal, offset_x, offset_y).fits(source_pixels@.len() as int),
    ensures
        composited(
            placement(*frame, source_w, target_w, target_h, flip_horizontal, offset_x, offset_y),
            source_pixels@,
            old(target_pixels)@,
            final(target_pixels)@,
        ),
{
    let ghost p = placement(*frame, source_w, target_w, target_h, flip_horizontal, offset_x, offset_y);
    let ghost old_t = target_pixels@;
    let ghost slen = source_pixels@.len() as int;
    let ghost tlen = old_t.len() as int;
    let draw_w = if frame.width < target_w { frame.width } else { target_w };
    let draw_h = if frame.height < target_h { frame.height } else { target_h };
    let mut y: u32 = 0;
    while y < draw_h
        invariant
            p == placement(*frame, source_w, target_w, target_h, flip_horizontal, offset_x, offset_y),
            p.fits(slen),
            slen == source_pixels@.len(),
            tlen == old_t.len(),
            draw_w == p.draw_w(),
            draw_h == p.draw_h(),
            y <= draw_h,
            target_pixels@.len() == tlen,
            forall|xx: int, yy: int|
                #![trigger p.target_index(xx, yy)]
                p.copies(slen, tlen, xx, yy) && yy < y ==> target_pixels@[p.target_index(xx, yy)]
                    == spec_alpha_blend(source_pixels@[p.source_index(xx, yy)], old_t[p.target_index(xx, yy)]),
            forall|i: int|
                0 <= i < tlen && (forall|xx: int, yy: int|
                    #![trigger p.target_index(xx, yy)]
                    p.copies(slen, tlen, xx, yy) && yy < y ==> p.target_index(xx, yy) != i)
                    ==> target_pixels@[i] == old_t[i],
        decreases draw_h - y,
    {
        assert(p.row_fits(y as int));
        let src_y = frame.y + y;
        let dst_y = to_u32(to_i32(y) + offset_y);
        if dst_y < target_h {
            let mut x: u32 = 0;
            while x < draw_w
                invariant
                    p == placement(*frame, source_w, target_w, target_h, flip_horizontal, offset_x, offset_y),
                    p.fits(slen),
                    slen == source_pixels@.len(),
                    tlen == old_t.len(),
                    draw_w == p.draw_w(),
                    draw_h == p.draw_h(),
                    y < draw_h,
                    x <= draw_w,
                    src_y == frame.y + y,
                    dst_y == shifted(y as int, offset_y as int),
                    dst_y < target_h,
                    i32::MIN <= as_i32(y as int) + offset_y <= i32::MAX,
                    target_pixels@.len() == tlen,
                    forall|xx: int, yy: int|
                        #![trigger p.target_index(xx, yy)]
                        p.copies(slen, tlen, xx, yy) && (yy < y || (yy == y && xx < x))
                            ==> target_pixels@[p.target_index(xx, yy)] == spec_alpha_blend(
                            source_pixels@[p.source_index(xx, yy)],
                            old_t[p.target_index(xx, yy)],
                        ),
                    forall|i: int|
                        0 <= i < tlen && (forall|xx: int, yy: int|
                            #![trigger p.target_index(xx, yy)]
                            p.copies(slen, tlen, xx, yy) && (yy < y || (yy == y && xx < x))
                                ==> p.target_index(xx, yy) != i) ==> target_pixels@[i] == old_t[i],
                decreases draw_w - x,
            {
                assert(p.row_lands(y as int));
                assert(0 <= x < p.draw_w());
                assert(p.pixel_fits(slen, x as int, y as int));
                let src_x = if flip_horizontal {
                    frame.x + (frame.width - 1 - x)
                } else {
                    frame.x + x
                };
                let dst_x = to_u32(to_i32(x) + offset_x);
                if dst_x < target_w {
                    assert(p.source_index(x as int, y as int) <= u32::MAX);
                    let src_idx = src_y * source_w + src_x;
                    if (src_idx as usize) < source_pixels.len() {
                        assert(p.target_index(x as int, y as int) <= u32::MAX);
                        let dst_idx = dst_y * target_w + dst_x;
                        if (dst_idx as usize) < target_pixels.len() {
                            let ghost before = target_pixels@;
                            let ghost d = dst_idx as int;
                            assert(p.copies(slen, tlen, x as int, y as int));
                            assert(d == p.target_index(x as int, y as int));
                            assert forall|xx: int, yy: int|
                                #![trigger p.target_index(xx, yy)]
                                p.copies(slen, tlen, xx, yy) && (yy < y || (yy == y && xx < x))
                                    implies p.target_index(xx, yy) != d by {
                                if p.target_index(xx, yy) == d {
                                    assert(p.row_lands(yy));
                                    assert(p.row_fits(yy));
                                    assert(p.pixel_fits(slen, xx, yy));
                                    lemma_target_index_injective(p, xx, yy, x as int, y as int);
                                }
                            }
                            assert(before[d] == old_t[d]);
                            let pixel = source_pixels[src_idx as usize];
                            let blended = alpha_blend(pixel, target_pixels[dst_idx as usize]);
                            target_pixels[dst_idx as usize] = blended;
                            assert forall|xx: int, yy: int|
                                #![trigger p.target_index(xx, yy)]
                                p.copies(slen, tlen, xx, yy) && (yy < y || (yy == y && xx < x
                                    + 1)) implies target_pixels@[p.target_index(xx, yy)]
                                == spec_alpha_blend(
                                source_pixels@[p.source_index(xx, yy)],
                                old_t[p.target_index(xx, yy)],
                            ) by {
                                if xx != x || yy != y {
                                    assert(p.target_index(xx, yy) != d);
                                }
                            }
                        }
                    }
                }
                x = x + 1;
            }
        }
        y = y + 1;
    }
}

/// Draws `frame` into a cleared target: every pixel is first set to 0
/// (transparent black), then the frame is composited without offset.
/// A pixel the frame lands on therefore holds the source pixel itself,
/// or 0 where the source pixel is fully transparent.
pub fn render_frame(
    source_pixels: &[u32],
    source_w: u32,
    source_h: u32,
    frame: &AnimationFrame,
    target_pixels: &mut [u32],
    target_w: u32,
    target_h: u32,
    flip_horizontal: bool,
)
    requires
        placement(*frame, source_w, target_w, target_h, flip_horizontal, 0, 0).fits(source_pixels@.len() as int),
    ensures
        composited(
            placement(*frame, source_w, target_w, target_h, flip_horizontal, 0, 0),
            source_pixels@,
            Seq::new(old(target_pixels)@.len(), |i: int| 0u32),
            final(target_pixels)@,
        ),
        forall|x: int, y: int|
            #![trigger placement(*frame, source_w, target_w, target_h, flip_horizontal, 0, 0).target_index(x, y)]
            placement(*frame, source_w, target_w, target_h, flip_horizontal, 0, 0).copies(
                source_pixels@.len() as int,
                old(target_pixels)@.len() as int,
                x,
                y,
            ) ==> ({
                let p = placement(*frame, source_w, target_w, target_h, flip_horizontal, 0, 0);
                let s = source_pixels@[p.source_index(x, y)];
                final(target_pixels)@[p.target_index(x, y)] == if alpha_of(s) == 0 {
                    0
                } else {
                    s
                }
            }),
{
    let n = target_pixels.len();
    let mut i: usize = 0;
    while i < n
        invariant
            n == target_pixels@.len(),
            n == old(target_pixels)@.len(),
            i <= n,
            forall|j: int| 0 <= j < i ==> target_pixels@[j] == 0u32,
        decreases n - i,
    {
        target_pixels[i] = 0;
        i = i + 1;
    }
    let ghost cleared = target_pixels@;
    assert(cleared =~= Seq::new(n as nat, |i: int| 0u32));
    composite_frame(
        source_pixels,
        source_w,
        source_h,
        frame,
        target_pixels,
        target_w,
        target_h,
        flip_horizontal,
        0,
        0,
    );
    let ghost p = placement(*frame, source_w, target_w, target_h, flip_horizontal, 0, 0);
    assert forall|x: int, y: int|
        #![trigger p.target_index(x, y)]
        p.copies(source_pixels@.len() as int, n as int, x, y) implies {
            let s = source_pixels@[p.source_index(x, y)];
            target_pixels@[p.target_index(x, y)] == if alpha_of(s) == 0 {
                0
            } else {
                s
            }
        } by {
        lemma_blend_over_clear(source_pixels@[p.source_index(x, y)]);
    }
}

/// Whether compositing `frame` with these arguments stays inside its
/// integer types (the `requires` of `composite_frame` and, with zero
/// offsets, of `render_frame`), so that callers can test it first.
pub fn composite_fits(
    source_len: usize,
    frame: &AnimationFrame,
    source_w: u32,
    target_w: u32,
    target_h: u32,
    flip_horizontal: bool,
    offset_x: i32,
    offset_y: i32,
) -> (r: bool)
    ensures
        r == placement(*frame, source_w, target_w, target_h, flip_horizontal, offset_x, offset_y).fits(
            source_len as int,
        ),
{
    let ghost p = placement(*frame, source_w, target_w, target_h, flip_horizontal, offset_x, offset_y);
    let draw_w = if frame.width < target_w { frame.width } else { target_w };
    let draw_h = if frame.height < target_h { frame.height } else { target_h };
    let mut y: u32 = 0;
    while y < draw_h
        invariant
            p == placement(*frame, source_w, target_w, target_h, flip_horizontal, offset_x, offset_y),
            draw_w == p.draw_w(),
            draw_h == p.draw_h(),
            y <= draw_h,
            forall|yy: int| 0 <= yy < y ==> #[trigger] p.row_fits(yy),
            forall|xx: int, yy: int|
                0 <= yy < y && p.row_lands(yy) && 0 <= xx < draw_w ==> #[trigger] p.pixel_fits(
                    source_len as int,
                    xx,
                    yy,
                ),
        decreases draw_h - y,
    {
        let sy = frame.y as u64 + y as u64;
        let yi = to_i32(y) as i64 + offset_y as i64;
        if sy > 0xFFFF_FFFF || yi < i32::MIN as i64 || yi > i32::MAX as i64 {
            assert(!p.row_fits(y as int));
            return false;
        }
        assert(p.row_fits(y as int));
        let dst_y = to_u32(yi as i32);
        if dst_y < target_h {
            let mut x: u32 = 0;
            while x < draw_w
                invariant
                    p == placement(*frame, source_w, target_w, target_h, flip_horizontal, offset_x, offset_y),
                    draw_w == p.draw_w(),
                    draw_h == p.draw_h(),
                    y < draw_h,
                    x <= draw_w,
                    sy == frame.y + y,
                    sy <= u32::MAX,
                    dst_y == shifted(y as int, offset_y as int),
                    dst_y < target_h,
                    forall|xx: int| 0 <= xx < x ==> #[trigger] p.pixel_fits(source_len as int, xx, y as int),
                decreases draw_w - x,
            {
                let sx: u64 = if flip_horizontal {
                    frame.x as u64 + (frame.width - 1 - x) as u64
                } else {
                    frame.x as u64 + x as u64
                };
                let xi = to_i32(x) as i64 + offset_x as i64;
                if sx > 0xFFFF_FFFF || xi < i32::MIN as i64 || xi > i32::MAX as i64 {
                    assert(!p.pixel_fits(source_len as int, x as int, y as int));
                    return false;
                }
                let dst_x = to_u32(xi as i32);
                if dst_x < target_w {
                    proof {
                        assert(sy * source_w <= 0xFFFF_FFFFu64 * 0xFFFF_FFFFu64) by (nonlinear_arith)
                            requires
                                sy <= 0xFFFF_FFFFu64,
                                source_w <= 0xFFFF_FFFFu64,
                        ;
                    }
                    let si: u64 = sy * source_w as u64 + sx;
                    assert(si == p.source_index(x as int, y as int));
                    if si > 0xFFFF_FFFF {
                        assert(!p.pixel_fits(source_len as int, x as int, y as int));
                        return false;
                    }
                    if si < source_len as u64 {
                        proof {
                            assert(dst_y * target_w <= 0xFFFF_FFFFu64 * 0xFFFF_FFFFu64) by (nonlinear_arith)
                                requires
                                    dst_y <= 0xFFFF_FFFFu64,
                                    target_w <= 0xFFFF_FFFFu64,
                            ;
                        }
                        let ti: u64 = dst_y as u64 * target_w as u64 + dst_x as u64;
                        assert(ti == p.target_index(x as int, y as int));
                        if ti > 0xFFFF_FFFF {
                            assert(!p.pixel_fits(source_len as int, x as int, y as int));
                            return false;
                        }
                    }
                }
                assert(p.pixel_fits(source_len as int, x as int, y as int));
                x = x + 1;
            }
        }
        y = y + 1;
    }
    true
}

} // verus!
