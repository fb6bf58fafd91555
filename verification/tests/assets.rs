use waypenguin::assets::{
    activity_frame_count, fallback_frame, get_activity_frames, upscale_fits_check, upscale_frame,
    Activity, RenderCache, Rendered, ACTIVITIES, FALLBACK_COLOR,
};

#[test]
fn activity_names_round_trip() {
    for &name in ACTIVITIES.iter() {
        let a = Activity::from_name(name).expect("known activity");
        assert_eq!(a.name(), name);
    }
    assert_eq!(Activity::from_name("penguin"), None);
    assert_eq!(Activity::from_name("Walker"), None);
}

#[test]
fn activity_frame_count_single_frame_poses() {
    for &name in ACTIVITIES.iter() {
        assert_eq!(activity_frame_count(name), Some(1));
    }
    assert_eq!(activity_frame_count("nope"), None);
    assert_eq!(activity_frame_count(""), None);
}

#[test]
fn fallback_frame_is_solid_grey() {
    let f = fallback_frame(3, 2);
    assert_eq!(f, vec![0xFF2D2D2D; 6]);
    assert_eq!(FALLBACK_COLOR, 0xFF2D2D2D);
    assert!(fallback_frame(0, 5).is_empty());
}

#[test]
fn upscale_doubles_each_pixel() {
    let src = vec![1, 2, 3, 4];
    let out = upscale_frame(&src, 2, 2, 4, 4);
    assert_eq!(
        out,
        vec![1, 1, 2, 2, 1, 1, 2, 2, 3, 3, 4, 4, 3, 3, 4, 4]
    );
}

#[test]
fn upscale_same_size_copies() {
    let src: Vec<u32> = (0..12).collect();
    assert_eq!(upscale_frame(&src, 4, 3, 4, 3), src);
}

#[test]
fn upscale_downscales_by_sampling() {
    let src: Vec<u32> = (0..16).collect();
    // 4x4 to 2x2 reads rows 0 and 2, columns 0 and 2
    assert_eq!(upscale_frame(&src, 4, 4, 2, 2), vec![0, 2, 8, 10]);
    // empty destination
    assert!(upscale_frame(&src, 4, 4, 0, 3).is_empty());
}

fn rendered(px: u32, w: u32, h: u32) -> Rendered {
    Rendered { pixels: vec![px; (w * h) as usize], width: w, height: h }
}

#[test]
fn cache_gives_back_what_was_inserted() {
    let mut cache = RenderCache::new();
    assert!(cache.get(Activity::Walker, 90).is_none());
    cache.insert(Activity::Walker, 90, rendered(7, 2, 3));
    cache.insert(Activity::Walker, 45, rendered(8, 1, 1));
    let got = cache.get(Activity::Walker, 90).expect("cached");
    assert_eq!((got.pixels.clone(), got.width, got.height), (vec![7; 6], 2, 3));
    assert!(cache.get(Activity::Faller, 90).is_none());
    cache.insert(Activity::Walker, 90, rendered(9, 1, 2));
    let got = cache.get(Activity::Walker, 90).expect("cached");
    assert_eq!((got.pixels.clone(), got.width, got.height), (vec![9; 2], 1, 2));
    let (frames, w, h) = cache.frames(Activity::Walker, 45).expect("cached");
    assert_eq!((frames, w, h), (vec![vec![8]], 1, 1));
}

#[test]
fn get_activity_frames_renders_once_per_size() {
    let mut cache = RenderCache::new();
    let mut calls = 0;
    let first = get_activity_frames(&mut cache, "walker", 90, |a, t| {
        calls += 1;
        assert_eq!((a, t), (Activity::Walker, 90));
        Some(rendered(0xFF000000, 2, 2))
    });
    assert_eq!(first, Some((vec![vec![0xFF000000; 4]], 2, 2)));
    assert_eq!(calls, 1);
    let second = get_activity_frames(&mut cache, "walker", 90, |_, _| -> Option<Rendered> {
        panic!("should come from the cache")
    });
    assert_eq!(second, first);
}

#[test]
fn get_activity_frames_unknown_or_failed() {
    let mut cache = RenderCache::new();
    let unknown = get_activity_frames(&mut cache, "dragon", 90, |_, _| -> Option<Rendered> {
        panic!("unknown names are not rendered")
    });
    assert_eq!(unknown, None);
    let failed = get_activity_frames(&mut cache, "angel", 90, |_, _| None);
    assert_eq!(failed, None);
    assert!(cache.get(Activity::Angel, 90).is_none());
}

#[test]
fn upscale_then_downscale_restores_the_frame() {
    let src = vec![1, 2, 3, 4];
    let up = upscale_frame(&src, 2, 2, 6, 6);
    assert_eq!(up.len(), 36);
    assert_eq!(upscale_frame(&up, 6, 6, 2, 2), src);
    let wide: Vec<u32> = (10..16).collect();
    let up = upscale_frame(&wide, 3, 2, 6, 4);
    assert_eq!(upscale_frame(&up, 6, 4, 3, 2), wide);
    // extra pixels past the frame are not part of the round trip
    let longer = vec![5, 6, 7, 8, 9];
    let up = upscale_frame(&longer, 2, 2, 4, 4);
    assert_eq!(upscale_frame(&up, 4, 4, 2, 2), vec![5, 6, 7, 8]);
}

#[test]
fn upscale_fits_check_accepts_and_refuses() {
    assert!(upscale_fits_check(4, 2, 2, 4, 4));
    assert!(upscale_fits_check(16, 4, 4, 2, 2));
    assert!(upscale_fits_check(0, 0, 0, 0, 0));
    assert!(upscale_fits_check(0, 4, 4, 0, 3));
    // too few source pixels for the last row
    assert!(!upscale_fits_check(3, 2, 2, 4, 4));
    // the destination's pixel count leaves u32
    assert!(!upscale_fits_check(4, 2, 2, 65536, 65536));
    // an empty source cannot fill a non-empty destination
    assert!(!upscale_fits_check(4, 2, 0, 4, 4));
    assert!(!upscale_fits_check(4, 0, 2, 4, 4));
}

#[test]
fn get_activity_frames_keeps_each_size_apart() {
    let mut cache = RenderCache::new();
    let small = get_activity_frames(&mut cache, "walker", 45, |a, t| {
        assert_eq!((a, t), (Activity::Walker, 45));
        Some(rendered(1, 45, 45))
    });
    assert_eq!(small.as_ref().map(|r| (r.0.len(), r.1, r.2)), Some((1, 45, 45)));
    let large = get_activity_frames(&mut cache, "walker", 90, |a, t| {
        assert_eq!((a, t), (Activity::Walker, 90));
        Some(rendered(2, 90, 90))
    });
    assert_eq!(large.as_ref().map(|r| (r.0.len(), r.1, r.2)), Some((1, 90, 90)));
    assert_eq!(large.as_ref().map(|r| r.0[0].len()), Some(90 * 90));
    // other poses and sizes in between leave the first result in place
    let _ = get_activity_frames(&mut cache, "angel", 45, |_, _| Some(rendered(3, 1, 1)));
    let _ = get_activity_frames(&mut cache, "faller", 45, |_, _| None);
    let again = get_activity_frames(&mut cache, "walker", 45, |_, _| -> Option<Rendered> {
        panic!("should come from the cache")
    });
    assert_eq!(again, small);
}
