use waypenguin::assets::Activity;
use waypenguin::state::AnimationFrame;
use waypenguin::theme::{build_activity_sheet, sheet_fits, CachedSheet, ThemeActivity, ThemeRenderer};

fn sheet(tag: u32) -> ThemeActivity {
    ThemeActivity {
        sheet: CachedSheet { pixels: vec![tag], sheet_w: 1, sheet_h: 1 },
        frames: vec![AnimationFrame { x: 0, y: 0, width: 1, height: 1 }],
    }
}

#[test]
fn sheet_lays_frames_side_by_side() {
    let frames = vec![vec![1, 2, 3, 4], vec![5, 6, 7, 8]];
    let t = build_activity_sheet(&frames, 2, 2, 2, 2);
    assert_eq!(t.sheet.sheet_w, 4);
    assert_eq!(t.sheet.sheet_h, 2);
    assert_eq!(t.sheet.pixels, vec![1, 2, 5, 6, 3, 4, 7, 8]);
    assert_eq!(
        t.frames,
        vec![
            AnimationFrame { x: 0, y: 0, width: 2, height: 2 },
            AnimationFrame { x: 2, y: 0, width: 2, height: 2 },
        ]
    );
}

#[test]
fn sheet_rescales_frames() {
    let frames = vec![vec![1, 2, 3, 4]];
    let t = build_activity_sheet(&frames, 2, 2, 4, 2);
    assert_eq!(t.sheet.pixels, vec![1, 1, 2, 2, 3, 3, 4, 4]);
    assert_eq!(t.frames, vec![AnimationFrame { x: 0, y: 0, width: 4, height: 2 }]);
}

#[test]
fn lookups_fall_back_to_walker_then_action0() {
    let mut theme = ThemeRenderer::new();
    assert!(theme.is_empty());
    theme.insert(Activity::Action0, sheet(0));
    assert_eq!(theme.activity_sheet("faller").pixels, vec![0]);
    theme.insert(Activity::Walker, sheet(1));
    theme.insert(Activity::Faller, sheet(3));
    assert_eq!(theme.len(), 3);
    assert!(!theme.is_empty());
    assert_eq!(theme.activity_sheet("faller").pixels, vec![3]);
    assert_eq!(theme.activity_sheet("angel").pixels, vec![1]);
    assert_eq!(theme.activity_sheet("no-such-pose").pixels, vec![1]);
    assert_eq!(theme.activity_sheet("action0").pixels, vec![0]);
    assert_eq!(theme.activity_frames("angel").len(), 1);
    theme.insert(Activity::Faller, sheet(4));
    assert_eq!(theme.len(), 3);
    assert_eq!(theme.activity_sheet("faller").pixels, vec![4]);
}

#[test]
fn sheet_fits_accepts_and_refuses() {
    let frames = vec![vec![1u32; 4], vec![2u32; 4]];
    assert!(sheet_fits(&frames, 2, 2, 4, 4));
    assert!(sheet_fits(&Vec::new(), 2, 2, 4, 4));
    // the second frame is too short to rescale
    let short = vec![vec![1u32; 4], vec![2u32; 3]];
    assert!(!sheet_fits(&short, 2, 2, 4, 4));
    // the sheet's pixel count leaves u32
    assert!(!sheet_fits(&frames, 2, 2, 50000, 50000));
}
