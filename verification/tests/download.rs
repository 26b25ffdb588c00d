use selector4nix::load_tracker::DownloadLoadTracker;
use selector4nix::download::{
    accepts_byte_ranges, clip_chunk, completes_download, find_splittable, initial_segment_end,
    first_segment_end, is_segmented_eligible, is_segmented_eligible_at_load, min_tail_bytes,
    range_left_incomplete, plan_range_segments, range_header_value,
    supervisor_step, DownloadConfiguration, SegmentSpan, SupervisorAction,
};

#[test]
fn segmented_eligibility_requires_all_conditions() {
    let config = DownloadConfiguration {
        segmented: true,
        segmented_min_file_bytes: 1024,
        segmented_max_connections: 4,
        segmented_load_threshold: 3,
        segmented_buffer_bytes: 4096,
    };
    let tracker = DownloadLoadTracker::new();

    assert!(is_segmented_eligible(&config, &tracker, 2048, true, None));
    assert!(!is_segmented_eligible(&config, &tracker, 512, true, None));
    assert!(!is_segmented_eligible(&config, &tracker, 2048, false, None));
    assert!(!is_segmented_eligible(&config, &tracker, 2048, true, Some("gzip")));
}

#[test]
fn segmented_eligibility_respects_load_and_switch() {
    let config = DownloadConfiguration {
        segmented: true,
        segmented_min_file_bytes: 1024,
        segmented_max_connections: 4,
        segmented_load_threshold: 3,
        segmented_buffer_bytes: 4096,
    };
    assert!(is_segmented_eligible_at_load(&config, 3, 2048, true, None));
    assert!(!is_segmented_eligible_at_load(&config, 4, 2048, true, None));
    let off = DownloadConfiguration {
        segmented: false,
        ..config
    };
    assert!(!is_segmented_eligible_at_load(&off, 0, 2048, true, None));
}

#[test]
fn defaults_and_connection_clamp() {
    let d = DownloadConfiguration::default();
    assert!(!d.segmented);
    assert_eq!(d.segmented_min_file_bytes, 8 * 1024 * 1024);
    assert_eq!(d.segmented_max_connections, 4);
    assert_eq!(d.segmented_load_threshold, 3);
    assert_eq!(d.segmented_buffer_bytes, 16 * 1024 * 1024);
    let one = DownloadConfiguration {
        segmented_max_connections: 1,
        ..d
    };
    assert_eq!(one.normalized().segmented_max_connections, 2);
    let six = DownloadConfiguration {
        segmented_max_connections: 6,
        ..d
    };
    assert_eq!(six.normalized().segmented_max_connections, 6);
}

#[test]
fn accept_ranges_is_case_insensitive() {
    assert!(accepts_byte_ranges(Some("bytes")));
    assert!(accepts_byte_ranges(Some("BYTES")));
    assert!(accepts_byte_ranges(Some("Bytes")));
    assert!(!accepts_byte_ranges(Some("none")));
    assert!(!accepts_byte_ranges(Some("bytes ")));
    assert!(!accepts_byte_ranges(None));
}

#[test]
fn initial_segment_is_a_share_of_the_file() {
    assert_eq!(initial_segment_end(16 * 1024, 4), 4096);
    assert_eq!(initial_segment_end(3, 4), 1);
    assert_eq!(initial_segment_end(0, 4), 1);
}

#[test]
fn range_plan_covers_the_range() {
    assert_eq!(
        plan_range_segments(4096, 16384, 3),
        vec![(4096, 8192), (8192, 12288), (12288, 16384)]
    );
    assert_eq!(plan_range_segments(0, 10, 3), vec![(0, 4), (4, 8), (8, 10)]);
    assert_eq!(plan_range_segments(0, 2, 5), vec![(0, 1), (1, 2)]);
    assert!(plan_range_segments(5, 5, 3).is_empty());
    assert!(plan_range_segments(0, 10, 0).is_empty());
    assert_eq!(
        plan_range_segments(u64::MAX - 3, u64::MAX, 2),
        vec![(u64::MAX - 3, u64::MAX - 1), (u64::MAX - 1, u64::MAX)]
    );
}

#[test]
fn splittable_segment_is_the_one_with_most_left() {
    let segs = [
        SegmentSpan { start: 0, end: 100 },
        SegmentSpan { start: 100, end: 400 },
        SegmentSpan { start: 400, end: 500 },
    ];
    assert_eq!(find_splittable(&segs, 50, 10), Some((1, 100, 400)));
    assert_eq!(find_splittable(&segs, 450, 10), Some((2, 450, 500)));
    assert_eq!(find_splittable(&segs, 495, 10), None);
    let ties = [
        SegmentSpan { start: 0, end: 100 },
        SegmentSpan { start: 100, end: 200 },
    ];
    assert_eq!(find_splittable(&ties, 0, 10), Some((1, 100, 200)));
}

#[test]
fn supervisor_decisions() {
    let config = DownloadConfiguration {
        segmented: true,
        segmented_min_file_bytes: 1024,
        segmented_max_connections: 4,
        segmented_load_threshold: 3,
        segmented_buffer_bytes: 4096,
    };
    assert_eq!(min_tail_bytes(&config), 256);
    let segs = [SegmentSpan { start: 0, end: 4096 }];
    assert_eq!(
        supervisor_step(&config, 4096, 4096, 0, 1, &segs),
        SupervisorAction::Finish
    );
    assert_eq!(
        supervisor_step(&config, 4096, 0, 4, 1, &segs),
        SupervisorAction::Wait
    );
    assert_eq!(
        supervisor_step(&config, 4096, 4000, 0, 1, &segs),
        SupervisorAction::Wait
    );
    assert_eq!(
        supervisor_step(&config, 4096, 0, 0, 4, &segs),
        SupervisorAction::Wait
    );
    assert_eq!(
        supervisor_step(&config, 4096, 1000, 0, 1, &segs),
        SupervisorAction::Split {
            index: 0,
            split_at: 1000,
            old_end: 4096,
            max_segments: 3
        }
    );
}

#[test]
fn chunks_are_clipped_to_the_segment() {
    assert_eq!(clip_chunk(0, 10, 4), (4, false));
    assert_eq!(clip_chunk(8, 10, 4), (2, true));
    assert_eq!(clip_chunk(6, 10, 4), (4, false));
    assert!(completes_download(3, 3, 0));
    assert!(!completes_download(2, 3, 0));
    assert!(!completes_download(3, 3, 1));
}

#[test]
fn range_header_names_inclusive_bounds() {
    assert_eq!(range_header_value(4096, 8192), "bytes=4096-8191");
    assert_eq!(range_header_value(0, 1), "bytes=0-0");
    assert_eq!(range_header_value(0, 0), "bytes=0-0");
}

#[test]
fn load_tracker_counts_entered_downloads() {
    let tracker = DownloadLoadTracker::new();
    assert_eq!(tracker.current(), 0);
    let first = tracker.enter();
    let shared = tracker.clone();
    let second = shared.enter();
    assert_eq!(tracker.current(), 2);
    drop(first);
    assert_eq!(shared.current(), 1);
    drop(second);
    assert_eq!(tracker.current(), 0);
}

#[test]
fn busy_tracker_turns_segmentation_off() {
    let config = DownloadConfiguration {
        segmented: true,
        segmented_min_file_bytes: 1024,
        segmented_max_connections: 4,
        segmented_load_threshold: 1,
        segmented_buffer_bytes: 4096,
    };
    let tracker = DownloadLoadTracker::new();
    let _a = tracker.enter();
    assert!(is_segmented_eligible(&config, &tracker, 2048, true, None));
    let _b = tracker.enter();
    assert!(!is_segmented_eligible(&config, &tracker, 2048, true, None));
}

#[test]
fn load_guard_tracks_in_flight_downloads() {
    let tracker = DownloadLoadTracker::new();
    assert_eq!(tracker.current(), 0);

    let guard = tracker.enter();
    assert_eq!(tracker.current(), 1);
    drop(guard);
    assert_eq!(tracker.current(), 0);
}

#[test]
fn any_load_passes_an_unbounded_threshold() {
    let config = DownloadConfiguration {
        segmented: true,
        segmented_min_file_bytes: 1024,
        segmented_max_connections: 4,
        segmented_load_threshold: usize::MAX,
        segmented_buffer_bytes: 4096,
    };
    let tracker = DownloadLoadTracker::new();
    let _a = tracker.enter();
    let _b = tracker.enter();
    assert!(is_segmented_eligible(&config, &tracker, 2048, true, None));
}

#[test]
fn first_segment_stays_within_the_file() {
    assert_eq!(first_segment_end(100, 4), 25);
    assert_eq!(first_segment_end(3, 4), 1);
    assert_eq!(first_segment_end(0, 4), 0);
}

#[test]
fn range_left_incomplete_unless_cancelled() {
    assert!(range_left_incomplete(5, 10, false));
    assert!(!range_left_incomplete(5, 10, true));
    assert!(!range_left_incomplete(10, 10, false));
}
