use odin::tracker::{
    config_is_valid, dispatch_plan, required_frame_bytes, scan_marker_tiles, tile_luma_stats,
    MoveTrackerConfig, MoveTrackerDispatchPlan,
};

#[test]
fn dispatch_plan_covers_partial_tiles() {
    let config = MoveTrackerConfig {
        width: 33,
        height: 17,
        stride_bytes: 40,
        tile_size: 16,
        ..MoveTrackerConfig::default()
    };

    let plan = dispatch_plan(config).expect("valid plan");
    assert_eq!(3, plan.groups_x);
    assert_eq!(2, plan.groups_y);
    assert_eq!(16, plan.group_size_x);
    assert_eq!(16, plan.group_size_y);
}

#[test]
fn dispatch_plan_refuses_invalid_configurations() {
    assert!(dispatch_plan(MoveTrackerConfig { width: 0, ..MoveTrackerConfig::default() }).is_none());
    assert!(dispatch_plan(MoveTrackerConfig { stride_bytes: 100, ..MoveTrackerConfig::default() }).is_none());
    assert!(dispatch_plan(MoveTrackerConfig { tile_size: 8, ..MoveTrackerConfig::default() }).is_none());
    assert!(!config_is_valid(MoveTrackerConfig { max_candidates: 0, ..MoveTrackerConfig::default() }));
    assert_eq!(
        dispatch_plan(MoveTrackerConfig::default()),
        Some(MoveTrackerDispatchPlan {
            group_size_x: 16,
            group_size_y: 16,
            groups_x: 20,
            groups_y: 15,
            max_candidates: 64,
        })
    );
}

#[test]
fn frames_need_height_times_stride_bytes() {
    assert_eq!(required_frame_bytes(MoveTrackerConfig::default()), Some(320 * 240));
    assert_eq!(
        required_frame_bytes(MoveTrackerConfig { height: 2, stride_bytes: 7, ..MoveTrackerConfig::default() }),
        Some(14)
    );
}

#[test]
fn extracts_weighted_marker_candidate() {
    let config = MoveTrackerConfig {
        width: 32,
        height: 24,
        stride_bytes: 32,
        tile_size: 16,
        threshold_min: 180,
        min_area_px: 3,
        max_candidates: 8,
        source_id_hash: 42,
        frame_sequence: 7,
    };
    let mut frame = vec![0u8; (config.stride_bytes * config.height) as usize];
    for (x, y, luma) in [(10u32, 8u32, 230u8), (11, 8, 250), (10, 9, 240), (11, 9, 255)] {
        frame[(y * config.stride_bytes + x) as usize] = luma;
    }

    let (candidates, cut_short) = scan_marker_tiles(&frame, config).expect("candidates");
    assert!(!cut_short);
    assert_eq!(1, candidates.len());
    let candidate = candidates[0];
    assert_eq!(0, candidate.tile_x);
    assert_eq!(0, candidate.tile_y);
    assert_eq!(4, candidate.area_px);
    assert_eq!(255, candidate.peak_luma);
    let center_x_px = candidate.sum_x as f32 / candidate.sum_w as f32;
    let center_y_px = candidate.sum_y as f32 / candidate.sum_w as f32;
    assert!(center_x_px > 10.4 && center_x_px < 10.7);
    assert!(center_y_px > 8.4 && center_y_px < 8.7);
    let area_score = (candidate.area_px as f32 / 256.0).min(1.0);
    let score = candidate.peak_luma as f32 / 255.0 * (0.65 + area_score * 0.35);
    assert!(score > 0.65);
}

#[test]
fn rejects_short_frames_and_empty_config() {
    assert!(scan_marker_tiles(&[], MoveTrackerConfig::default()).is_none());
    assert!(dispatch_plan(MoveTrackerConfig { width: 0, ..MoveTrackerConfig::default() }).is_none());
}

#[test]
fn tile_sums_weigh_luma_above_the_threshold() {
    let config = MoveTrackerConfig { width: 20, height: 18, stride_bytes: 24, min_area_px: 1, ..MoveTrackerConfig::default() };
    let mut frame = vec![0u8; 24 * 18];
    frame[17 * 24 + 19] = 181;
    frame[16 * 24 + 16] = 180;
    frame[16 * 24 + 15] = 255;
    let tile = tile_luma_stats(&frame, config, 1, 1).expect("edge tile");
    assert_eq!((tile.area_px, tile.peak_luma), (2, 181));
    assert_eq!(tile.sum_w, 2 + 1);
    assert_eq!(tile.sum_x, 19 * 2 + 16);
    assert_eq!(tile.sum_y, 17 * 2 + 16);
    let other = tile_luma_stats(&frame, config, 0, 1).expect("left tile");
    assert_eq!((other.area_px, other.sum_w, other.sum_x), (1, 76, 15 * 76));
    assert!(tile_luma_stats(&frame, config, 0, 0).is_none());
}

#[test]
fn the_candidate_limit_cuts_the_scan_short() {
    let config = MoveTrackerConfig { width: 48, height: 16, stride_bytes: 48, min_area_px: 1, max_candidates: 2, ..MoveTrackerConfig::default() };
    let mut frame = vec![0u8; 48 * 16];
    frame[1] = 200;
    frame[17] = 200;
    frame[33] = 200;
    let (tiles, cut_short) = scan_marker_tiles(&frame, config).unwrap();
    assert!(cut_short);
    assert_eq!(tiles.iter().map(|t| t.tile_x).collect::<Vec<_>>(), vec![0, 1]);
    frame[33] = 0;
    let (tiles, cut_short) = scan_marker_tiles(&frame, config).unwrap();
    assert!(cut_short);
    assert_eq!(tiles.len(), 2);
    frame[17] = 0;
    let (tiles, cut_short) = scan_marker_tiles(&frame, config).unwrap();
    assert!(!cut_short);
    assert_eq!(tiles.len(), 1);
    let mut short = frame.clone();
    short.pop();
    assert!(scan_marker_tiles(&short, config).is_none());
}
