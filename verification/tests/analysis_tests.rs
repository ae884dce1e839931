//! Tests for visual-metrics normalization.

use fxrecord::analysis::VisualMetrics;

#[test]
fn test_normalize() {
    let metrics = VisualMetrics {
        video_recording_start: 500,
        first_visual_change: 0,
        last_visual_change: 3000,
        speed_index: 1200,
        visual_progress: vec![
            (0, "0".to_string()),
            (500, "10".to_string()),
            (3000, "100".to_string()),
        ],
    };
    // The first orange frame was painted at 300 ms: 200 ms of orange
    // belong to the startup.
    let normalized = metrics.normalize(300);
    assert_eq!(normalized.video_recording_start, 300);
    assert_eq!(normalized.first_visual_change, 500);
    assert_eq!(normalized.last_visual_change, 3200);
    assert_eq!(normalized.speed_index, 1200 + 100 * 200);
    assert_eq!(
        normalized.visual_progress,
        vec![
            (0, "0".to_string()),
            (700, "10".to_string()),
            (3200, "100".to_string()),
        ]
    );
}

#[test]
fn test_normalize_no_orange_gap() {
    // The orange frame appeared exactly at the recording start: nothing
    // shifts.
    let metrics = VisualMetrics {
        video_recording_start: 400,
        first_visual_change: 0,
        last_visual_change: 900,
        speed_index: 700,
        visual_progress: vec![(0, "0".to_string()), (900, "100".to_string())],
    };
    let normalized = metrics.normalize(400);
    assert_eq!(normalized.video_recording_start, 400);
    assert_eq!(normalized.first_visual_change, 400);
    assert_eq!(normalized.last_visual_change, 900);
    assert_eq!(normalized.speed_index, 700);
    assert_eq!(
        normalized.visual_progress,
        vec![(0, "0".to_string()), (900, "100".to_string())]
    );
}
