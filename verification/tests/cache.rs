use vu_meter::cache::{same_levels, FrameDiffCache};
use vu_meter::geometry::{bar_segments, WindowGeometry};

fn window() -> WindowGeometry {
    WindowGeometry { width: 100, height: 200 }
}

fn record(cache: &mut FrameDiffCache, levels: &Vec<u32>, window: WindowGeometry) {
    cache.record(levels.clone(), window, bar_segments(levels, window));
}

#[test]
fn same_levels_compares_exactly() {
    assert!(same_levels(&vec![], &vec![]));
    assert!(same_levels(&vec![1, 2, 3], &vec![1, 2, 3]));
    assert!(!same_levels(&vec![1, 2, 3], &vec![1, 2, 4]));
    assert!(!same_levels(&vec![1, 2, 3], &vec![1, 2]));
    assert!(!same_levels(&vec![1, 2], &vec![1, 2, 3]));
    assert!(!same_levels(&vec![500], &vec![501]));
}

#[test]
fn an_empty_cache_always_draws() {
    let cache = FrameDiffCache::new();
    assert!(!cache.holds_frame());
    assert!(cache.segments().is_none());
    assert!(cache.should_draw(&vec![0, 0], window(), true));
    assert!(cache.should_draw(&vec![0, 0], window(), false));
    assert!(cache.should_draw(&vec![], window(), true));
}

#[test]
fn second_synthetic_request_with_same_levels_is_skipped() {
    let levels = vec![500, 950];
    let mut cache = FrameDiffCache::new();
    assert!(cache.should_draw(&levels, window(), true));
    record(&mut cache, &levels, window());
    assert!(cache.holds_frame());
    assert!(!cache.should_draw(&levels, window(), true));
    assert!(!cache.should_draw(&vec![500, 950], window(), true));
}

#[test]
fn genuine_request_with_same_levels_draws() {
    let levels = vec![500, 950];
    let mut cache = FrameDiffCache::new();
    record(&mut cache, &levels, window());
    assert!(cache.should_draw(&levels, window(), false));
}

#[test]
fn synthetic_request_with_other_levels_draws() {
    let mut cache = FrameDiffCache::new();
    record(&mut cache, &vec![500, 950], window());
    assert!(cache.should_draw(&vec![500, 951], window(), true));
    assert!(cache.should_draw(&vec![500], window(), true));
    assert!(cache.should_draw(&vec![950, 500], window(), true));
}

#[test]
fn synthetic_request_in_another_window_draws() {
    let levels = vec![500, 950];
    let mut cache = FrameDiffCache::new();
    record(&mut cache, &levels, window());
    assert!(cache.should_draw(&levels, WindowGeometry { width: 101, height: 200 }, true));
    assert!(cache.should_draw(&levels, WindowGeometry { width: 100, height: 201 }, true));
}

#[test]
fn without_channels_the_window_makes_no_difference() {
    let levels: Vec<u32> = Vec::new();
    let mut cache = FrameDiffCache::new();
    record(&mut cache, &levels, window());
    assert!(!cache.should_draw(&levels, WindowGeometry { width: 7, height: 9 }, true));
    assert!(cache.should_draw(&levels, WindowGeometry { width: 7, height: 9 }, false));
}

#[test]
fn the_cache_holds_the_bars_it_recorded() {
    let levels = vec![700, 100, 1000];
    let mut cache = FrameDiffCache::new();
    record(&mut cache, &levels, window());
    assert_eq!(cache.segments(), Some(&bar_segments(&levels, window())));
    record(&mut cache, &vec![1], window());
    assert_eq!(cache.segments(), Some(&bar_segments(&vec![1], window())));
}
