use immersive_scene::model::{ClipSource, TimelineElement};
use immersive_scene::repository::{
    check_element_overlap, validate_clip_move, validate_clip_placement, StoreError,
};

fn clip(id: i64, track_id: i64, start: i64, duration: i64) -> TimelineElement {
    TimelineElement {
        id,
        track_id,
        audio_element_id: Some(100),
        element_group_id: None,
        start_time_ms: start,
        duration_ms: duration,
    }
}

#[test]
fn test_element_overlap_rejection() {
    // Element 10 on track 5 spans 1000ms to 3000ms.
    let clips = vec![clip(10, 5, 1000, 2000)];

    // Completely before.
    assert!(!check_element_overlap(&clips, 5, 0, 500, None));
    // Exactly before.
    assert!(!check_element_overlap(&clips, 5, 0, 1000, None));
    // Completely after.
    assert!(!check_element_overlap(&clips, 5, 3000, 1000, None));
    // Overlapping the start.
    assert!(check_element_overlap(&clips, 5, 500, 1000, None));
    // Overlapping the end.
    assert!(check_element_overlap(&clips, 5, 2500, 1000, None));
    // Enclosing.
    assert!(check_element_overlap(&clips, 5, 500, 3500, None));
    // Contained.
    assert!(check_element_overlap(&clips, 5, 1500, 1000, None));
    // Overlapping itself when excluded.
    assert!(!check_element_overlap(&clips, 5, 500, 1500, Some(10)));
    // Another track.
    assert!(!check_element_overlap(&clips, 6, 1500, 1000, None));
}

#[test]
fn touching_clip_after_existing_is_accepted() {
    let clips = vec![clip(1, 2, 1000, 2000)];
    assert!(!check_element_overlap(&clips, 2, 3000, 10, None));
    assert!(check_element_overlap(&clips, 2, 2999, 10, None));
}

#[test]
fn moving_clip_onto_own_slot_is_accepted() {
    let clips = vec![clip(1, 7, 0, 1000), clip(2, 7, 1000, 500), clip(3, 7, 2000, 100)];
    assert_eq!(validate_clip_move(&clips, 7, 2, 1000, 500), Ok(()));
    assert_eq!(validate_clip_move(&clips, 7, 2, 900, 500), Err(StoreError::Overlap));
    assert_eq!(validate_clip_move(&clips, 7, 2, 1500, 500), Ok(()));
}

#[test]
fn overlap_check_handles_extreme_values() {
    let clips = vec![clip(1, 1, i64::MAX - 10, 10)];
    assert!(check_element_overlap(&clips, 1, i64::MAX - 5, i64::MAX, None));
    assert!(!check_element_overlap(&clips, 1, i64::MIN, 5, None));
}

#[test]
fn placement_requires_exactly_one_source() {
    let clips = vec![clip(1, 4, 0, 100)];
    assert_eq!(
        validate_clip_placement(&clips, 4, None, None, 200, 10),
        Err(StoreError::MissingClipSource)
    );
    assert_eq!(
        validate_clip_placement(&clips, 4, Some(1), Some(2), 200, 10),
        Err(StoreError::AmbiguousClipSource)
    );
    assert_eq!(
        validate_clip_placement(&clips, 4, Some(1), None, 200, 10),
        Ok(ClipSource::Element(1))
    );
    assert_eq!(
        validate_clip_placement(&clips, 4, None, Some(9), 100, 10),
        Ok(ClipSource::Group(9))
    );
    assert_eq!(
        validate_clip_placement(&clips, 4, Some(1), None, 50, 10),
        Err(StoreError::Overlap)
    );
}

#[test]
fn clip_source_columns() {
    assert_eq!(ClipSource::Element(3).audio_element_id(), Some(3));
    assert_eq!(ClipSource::Element(3).element_group_id(), None);
    assert_eq!(ClipSource::Group(4).audio_element_id(), None);
    assert_eq!(ClipSource::Group(4).element_group_id(), Some(4));
}
