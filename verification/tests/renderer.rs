use waypenguin::pixel::{alpha_blend, pack_argb};
use waypenguin::render::{composite_fits, composite_frame, render_frame};
use waypenguin::state::AnimationFrame;

#[test]
fn test_render_frame_simple() {
    let source = vec![0xFFFF0000, 0xFF00FF00, 0xFF0000FF, 0xFFFFFFFF];
    let mut target = vec![0; 4];
    let frame = AnimationFrame {
        x: 0,
        y: 0,
        width: 2,
        height: 2,
    };

    render_frame(&source, 2, 2, &frame, &mut target, 2, 2, false);
    assert_eq!(target, vec![0xFFFF0000, 0xFF00FF00, 0xFF0000FF, 0xFFFFFFFF]);

    let mut target2 = vec![0; 4];
    render_frame(&source, 2, 2, &frame, &mut target2, 2, 2, true);
    assert_eq!(
        target2,
        vec![0xFF00FF00, 0xFFFF0000, 0xFFFFFFFF, 0xFF0000FF]
    );
}

#[test]
fn render_frame_clears_untouched_pixels() {
    let source = vec![0xFF112233; 4];
    let mut target = vec![0xDEADBEEF; 9];
    let frame = AnimationFrame { x: 0, y: 0, width: 2, height: 2 };
    render_frame(&source, 2, 2, &frame, &mut target, 3, 3, false);
    assert_eq!(
        target,
        vec![0xFF112233, 0xFF112233, 0, 0xFF112233, 0xFF112233, 0, 0, 0, 0]
    );
}

#[test]
fn render_frame_transparent_source_stays_clear() {
    let source = vec![0x00FF0000, 0x80FF0000];
    let mut target = vec![7u32; 2];
    let frame = AnimationFrame { x: 0, y: 0, width: 2, height: 1 };
    render_frame(&source, 2, 1, &frame, &mut target, 2, 1, false);
    assert_eq!(target, vec![0, 0x80FF0000]);
}

#[test]
fn composite_frame_with_offset_and_clipping() {
    // a 2x2 opaque frame placed one pixel right and one down in a 3x3 target
    let source = vec![1 | 0xFF000000, 2 | 0xFF000000, 3 | 0xFF000000, 4 | 0xFF000000];
    let mut target = vec![0u32; 9];
    let frame = AnimationFrame { x: 0, y: 0, width: 2, height: 2 };
    composite_frame(&source, 2, 2, &frame, &mut target, 3, 3, false, 1, 1);
    assert_eq!(
        target,
        vec![0, 0, 0, 0, 0xFF000001, 0xFF000002, 0, 0xFF000003, 0xFF000004]
    );

    // shifted two to the right: the second column falls off the target
    let mut target = vec![0u32; 9];
    composite_frame(&source, 2, 2, &frame, &mut target, 3, 3, false, 2, 0);
    assert_eq!(
        target,
        vec![0, 0, 0xFF000001, 0, 0, 0xFF000003, 0, 0, 0]
    );

    // shifted up: the first row falls off the target
    let mut target = vec![0u32; 9];
    composite_frame(&source, 2, 2, &frame, &mut target, 3, 3, false, 0, -1);
    assert_eq!(
        target,
        vec![0xFF000003, 0xFF000004, 0, 0, 0, 0, 0, 0, 0]
    );
}

#[test]
fn composite_frame_reads_sub_rectangle_of_sheet() {
    // a 4x1 sheet holding two 2x1 frames; draw the second one mirrored
    let sheet = vec![0xFF000001, 0xFF000002, 0xFF000003, 0xFF000004];
    let frame = AnimationFrame { x: 2, y: 0, width: 2, height: 1 };
    let mut target = vec![0u32; 2];
    composite_frame(&sheet, 4, 1, &frame, &mut target, 2, 1, true, 0, 0);
    assert_eq!(target, vec![0xFF000004, 0xFF000003]);
}

#[test]
fn alpha_blend_transparent_and_opaque_sources() {
    assert_eq!(alpha_blend(0x00FFFFFF, 0x12345678), 0x12345678);
    assert_eq!(alpha_blend(0xFF102030, 0x12345678), 0xFF102030);
    assert_eq!(alpha_blend(0xFE102030, 0x12345678), 0xFE102030);
}

#[test]
fn alpha_blend_half_transparent_over_opaque() {
    // sa = 128, da = 255: a = 128 + 255*127/255 = 255
    // r = (255*128 + 0*255*127/255) / 255 = 128
    // b = (0*128 + 255*255*127/255) / 255 = 127
    assert_eq!(alpha_blend(0x80FF0000, 0xFF0000FF), 0xFF80007F);
}

#[test]
fn alpha_blend_over_clear_returns_source() {
    for src in [0x01ABCDEFu32, 0x80102030, 0xFD010203, 0x7F7F7F7F] {
        assert_eq!(alpha_blend(src, 0), src);
    }
    assert_eq!(alpha_blend(0x00ABCDEF, 0), 0);
}

#[test]
fn pack_argb_places_channels() {
    assert_eq!(pack_argb(0xFF, 0x12, 0x34, 0x56), 0xFF123456);
    assert_eq!(pack_argb(0, 0, 0, 0), 0);
}

#[test]
fn composite_fits_accepts_and_refuses() {
    let frame = AnimationFrame { x: 0, y: 0, width: 2, height: 2 };
    assert!(composite_fits(4, &frame, 2, 4, 4, false, 1, 1));
    assert!(composite_fits(4, &frame, 2, 4, 4, true, -3, 0));
    // the row after the frame's last sheet row leaves u32
    let low = AnimationFrame { x: 0, y: u32::MAX, width: 1, height: 2 };
    assert!(!composite_fits(4, &low, 1, 4, 4, false, 0, 0));
    // the offset row leaves i32
    assert!(!composite_fits(4, &frame, 2, 4, 4, false, 0, i32::MAX));
    // the sheet index leaves u32
    let deep = AnimationFrame { x: 0, y: 2, width: 1, height: 1 };
    assert!(!composite_fits(4, &deep, u32::MAX, 4, 4, false, 0, 0));
}
