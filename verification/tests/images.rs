use plan::{
    gif_frame_index, is_image, is_image_ext, is_video, is_video_ext, load_plan,
    supported_extension, thumbnail_path, LoadPlan, Lod, TextureCache,
};

#[test]
fn extensions() {
    assert!(is_video_ext("mp4") && is_video_ext("webm") && is_video_ext("mkv"));
    assert!(!is_video_ext("MP4") && !is_video_ext("png"));
    for ext in ["png", "jpg", "jpeg", "webp", "gif"] {
        assert!(is_image_ext(ext));
        assert!(supported_extension(ext));
    }
    assert!(supported_extension("mkv"));
    assert!(!supported_extension("txt"));
    assert!(!supported_extension(""));
}

#[test]
fn video_and_image_paths() {
    assert!(is_video("clips/cat.mp4"));
    assert!(!is_video("clips/mp4"));
    assert!(!is_video("notes.txt"));
    assert!(!is_video(".mp4"));
    assert!(is_image("a/b.c/pic.jpeg"));
    assert!(!is_image("a/b.png/pic"));
}

#[test]
fn thumbnail_paths() {
    assert_eq!(thumbnail_path("/cache/big", "img/a.png", 42, Lod::Low), "/cache/big/42.s.jpg");
    assert_eq!(thumbnail_path("/cache/big/", "img/a.png", 0, Lod::Medium), "/cache/big/0.m.jpg");
    assert_eq!(thumbnail_path("/cache/big", "img/a.png", 42, Lod::Full), "img/a.png");
    let big = u128::MAX;
    assert_eq!(
        thumbnail_path("t", "s", big, Lod::Low),
        format!("t/{big}.s.jpg")
    );
}

#[test]
fn lod_sides() {
    assert_eq!(Lod::side_small(), 256);
    assert_eq!(Lod::side_medium(), 768);
}

#[test]
fn load_plans() {
    assert_eq!(load_plan("t/1.s.jpg", false, Lod::Low), LoadPlan::Thumbnail { side: 256 });
    assert_eq!(load_plan("t/1.m.jpg", false, Lod::Medium), LoadPlan::Thumbnail { side: 768 });
    assert_eq!(load_plan("a.png", false, Lod::Full), LoadPlan::SourceMissing);
    assert_eq!(load_plan("a.gif", true, Lod::Full), LoadPlan::Gif);
    assert_eq!(load_plan("a.webm", true, Lod::Full), LoadPlan::VideoFrame);
    assert_eq!(load_plan("a.png", true, Lod::Full), LoadPlan::Still);
    assert_eq!(load_plan("t/1.s.jpg", true, Lod::Low), LoadPlan::Still);
    assert_eq!(load_plan("noext", true, Lod::Full), LoadPlan::Still);
}

#[test]
fn gif_frames() {
    let ms = 1_000_000u128;
    let delays = [100 * ms, 50 * ms, 100 * ms];
    assert_eq!(gif_frame_index(0, &delays), (0, Some(100)));
    assert_eq!(gif_frame_index(99, &delays), (0, Some(1)));
    assert_eq!(gif_frame_index(100, &delays), (1, Some(50)));
    assert_eq!(gif_frame_index(249, &delays), (2, Some(1)));
    assert_eq!(gif_frame_index(250, &delays), (0, Some(100)));
    assert_eq!(gif_frame_index(1_000_120, &delays), (1, Some(30)));
    // No frames.
    assert_eq!(gif_frame_index(5, &[]), (0, None));
    // Sub-millisecond parts add up in the total but not frame by frame.
    let halves = [1_500_000u128, 1_500_000];
    assert_eq!(gif_frame_index(2, &halves), (0, None));
    assert_eq!(gif_frame_index(1, &halves), (1, Some(1)));
    // Zero delays.
    assert_eq!(gif_frame_index(7, &[0, 0]), (0, None));
}

#[test]
fn texture_cache_requests_once_and_reads_back() {
    let mut cache: TextureCache<u32> = TextureCache::new();
    assert!(!cache.any_pending());
    assert!(cache.request_load("a".to_string()));
    assert!(!cache.request_load("a".to_string()));
    assert!(cache.any_pending());
    assert_eq!(cache.get("a"), None);
    cache.insert_loaded("a".to_string(), 7);
    assert_eq!(cache.get("a"), Some(&7));
    assert!(!cache.any_pending());
    assert!(!cache.request_load("a".to_string()));
    assert_eq!(cache.get("b"), None);
    cache.insert_loaded("b".to_string(), 8);
    assert_eq!(cache.get("b"), Some(&8));
    assert_eq!(cache.get("a"), Some(&7));
}
