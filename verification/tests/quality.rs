use termway::quality::{
    atlas_navigation, next_damage_streak, refine_improves_atlas, scale_dimension,
    should_adapt_quality, AtlasNavigation, KittyQuality,
};
use termway::render::ViewportRect;

const MS: u128 = 1_000_000;

#[test]
fn kitty_quality_jumps_to_a_frame_budget_and_resets_after_idle() {
    let mut quality = KittyQuality::new(1920, 1080, 360);
    assert_eq!(quality.limits(), (1920, 1080));
    assert!(quality.reduce_for(6_000_000, 1_100_000));
    assert_eq!(quality.label(), "360p");
    quality.reset();
    assert_eq!(quality.label(), "1080p");

    let mut moderate = KittyQuality::new(1920, 1080, 360);
    assert!(moderate.reduce_for(1_500_000, 1_100_000));
    assert_eq!(moderate.label(), "900p");
}

#[test]
fn kitty_quality_scales_custom_resolution_and_respects_its_floor() {
    let mut quality = KittyQuality::new(2560, 1600, 800);
    assert_eq!(quality.limits(), (2560, 1600));
    assert_eq!(quality.label(), "2560x1600");
    quality.select_lowest();
    assert_eq!(quality.limits(), (1280, 800));
    assert_eq!(quality.label(), "1280x800");
}

#[test]
fn runtime_resolution_cap_is_the_new_adaptive_ceiling() {
    let mut quality = KittyQuality::new(1920, 1080, 360);
    assert!(quality.lower_ceiling());
    assert_eq!(quality.ceiling_label(), "900p");
    quality.select_lowest();
    quality.reset();
    assert_eq!(quality.label(), "900p");
    assert!(quality.raise_ceiling());
    assert_eq!(quality.ceiling_label(), "1080p");
    assert_eq!(quality.label(), "1080p");
    assert!(!quality.raise_ceiling());
}

#[test]
fn adaptive_quality_skips_navigation_by_default() {
    assert!(should_adapt_quality(true, false, false, true, false));
    assert!(!should_adapt_quality(true, false, true, true, false));
    assert!(should_adapt_quality(true, true, true, false, false));
    assert!(!should_adapt_quality(true, false, false, false, false));
    assert!(!should_adapt_quality(true, true, false, true, true));
    assert!(!should_adapt_quality(false, true, false, true, false));
}

#[test]
fn adaptive_damage_streak_requires_nearby_frames() {
    let started: u128 = 77 * MS;
    let window = 500 * MS;
    assert_eq!(next_damage_streak(0, None, started, window), 1);
    assert_eq!(next_damage_streak(1, Some(started), started + 200 * MS, window), 2);
    assert_eq!(next_damage_streak(2, Some(started), started + 501 * MS, window), 1);
}

#[test]
fn fresh_atlas_is_never_overlaid_with_an_equal_or_lower_resolution_refine() {
    let crop = ViewportRect { x: 0, y: 0, width: 960, height: 540 };
    assert!(!refine_improves_atlas(false, Some(crop), (640, 360)));
    assert!(!refine_improves_atlas(false, Some(crop), (960, 540)));
    assert!(refine_improves_atlas(false, Some(crop), (1280, 720)));
    assert!(refine_improves_atlas(true, Some(crop), (640, 360)));
    assert!(refine_improves_atlas(false, None, (640, 360)));
}

#[test]
fn navigation_never_previews_a_stale_atlas() {
    assert_eq!(atlas_navigation(true, false), AtlasNavigation::Preview);
    assert_eq!(atlas_navigation(false, false), AtlasNavigation::WaitForUpload);
    assert_eq!(atlas_navigation(true, true), AtlasNavigation::RefineCurrentFrame);
    assert_eq!(atlas_navigation(false, true), AtlasNavigation::RefineCurrentFrame);
}

#[test]
fn tiers_descend_to_the_floor() {
    let quality = KittyQuality::new(1920, 1080, 360);
    assert_eq!(
        quality.limits,
        vec![(1920, 1080), (1600, 900), (1280, 720), (960, 540), (640, 360)]
    );
    assert_eq!(KittyQuality::new(1920, 1080, 1080).limits, vec![(1920, 1080)]);
    assert_eq!(
        KittyQuality::new(1920, 1080, 1000).limits,
        vec![(1920, 1080), (1777, 1000)]
    );
    assert_eq!(KittyQuality::new(1, 1, 1).limits, vec![(1, 1)]);
    assert_eq!(scale_dimension(7, 1, 3), 2);
    assert_eq!(scale_dimension(1, 1, 3), 1);
}

#[test]
fn the_budget_stops_at_the_last_tier() {
    let mut quality = KittyQuality::new(1920, 1080, 360);
    assert!(quality.reduce_for(usize::MAX, 0));
    assert_eq!(quality.limits(), (640, 360));
    assert!(!quality.reduce_for(usize::MAX, 0));
    assert!(!quality.is_maximum());
    let mut lowest = KittyQuality::new(100, 100, 100);
    assert!(!lowest.lower_ceiling());
    assert!(lowest.is_maximum());
}

#[test]
fn streaks_do_not_overflow() {
    assert_eq!(next_damage_streak(u32::MAX, Some(5), 5, 0), u32::MAX);
    assert_eq!(next_damage_streak(3, Some(9), 5, 0), 4);
}
