use immersive_scene::model::Timeline;
use immersive_scene::repository::{plan_timeline_creation, TimelineCreation};
use immersive_scene::schema::{
    plan_migrations, probe_shape, timelines_to_discard, ColumnInfo, MigrationStep, SchemaShape,
    TimelineKey,
};

fn cols(names: &[(&str, bool)]) -> Vec<ColumnInfo> {
    names
        .iter()
        .map(|(n, nn)| ColumnInfo { name: n.to_string(), not_null: *nn })
        .collect()
}

fn current() -> SchemaShape {
    SchemaShape {
        elements_has_mood_id: false,
        elements_has_sound_set_id: true,
        elements_sound_set_id_not_null: false,
        elements_has_channel_id: true,
        timelines_has_is_looping: true,
        tracks_has_is_looping: true,
        clips_has_track_id: true,
        clips_has_group_id: true,
        has_timeline_mood_index: true,
    }
}

fn apply(steps: &[MigrationStep], s: SchemaShape) -> SchemaShape {
    let mut s = s;
    for step in steps {
        match step {
            MigrationStep::AddElementSoundSet => s.elements_has_sound_set_id = true,
            MigrationStep::AddTimelineLooping => s.timelines_has_is_looping = true,
            MigrationStep::AddTrackLooping => s.tracks_has_is_looping = true,
            MigrationStep::AddElementChannel => s.elements_has_channel_id = true,
            MigrationStep::RebuildClips { .. } => {
                s.clips_has_track_id = true;
                s.clips_has_group_id = true;
            }
            MigrationStep::DedupeTimelines => s.has_timeline_mood_index = true,
            MigrationStep::RebuildElements { .. } => {
                s.elements_has_mood_id = false;
                s.elements_has_sound_set_id = true;
                s.elements_sound_set_id_not_null = false;
                s.elements_has_channel_id = true;
            }
        }
    }
    s
}

fn timeline(id: i64, mood_id: i64, name: &str) -> Timeline {
    Timeline {
        id,
        mood_id,
        name: name.to_string(),
        order_index: 0,
        is_looping: false,
        created_at: String::new(),
    }
}

#[test]
fn test_timeline_migration_singleton() {
    // Timelines table without the unique index, two timelines for mood 10.
    let shape = probe_shape(
        &cols(&[("id", false), ("sound_set_id", false), ("channel_id", false)]),
        &cols(&[("id", false), ("mood_id", true), ("name", true), ("is_looping", false)]),
        &cols(&[("id", false), ("is_looping", false)]),
        &cols(&[("id", false), ("track_id", false), ("element_group_id", false)]),
        false,
    );
    assert_eq!(plan_migrations(&shape), vec![MigrationStep::DedupeTimelines]);

    let rows = vec![
        TimelineKey { id: 1, mood_id: 10 },
        TimelineKey { id: 2, mood_id: 10 },
        TimelineKey { id: 3, mood_id: 20 },
    ];
    // Only the oldest timeline of mood 10 (id 1) is kept.
    let discarded = timelines_to_discard(&rows);
    assert_eq!(discarded, vec![2]);
    let kept: Vec<&TimelineKey> = rows.iter().filter(|r| !discarded.contains(&r.id)).collect();
    let for_mood_10: Vec<&&TimelineKey> = kept.iter().filter(|r| r.mood_id == 10).collect();
    assert_eq!(for_mood_10.len(), 1);
    assert_eq!(for_mood_10[0].id, 1);

    // A further timeline for mood 10 is not inserted.
    let found = vec![timeline(1, 10, "First")];
    match plan_timeline_creation(found, 10, "Third".to_string()) {
        TimelineCreation::Existing(t) => {
            assert_eq!(t.id, 1);
            assert_eq!(t.name, "First");
        }
        TimelineCreation::Create { .. } => panic!("a second timeline was planned"),
    }
}

#[test]
fn current_database_needs_no_migration() {
    assert!(plan_migrations(&current()).is_empty());
}

#[test]
fn legacy_database_gets_every_step_in_order() {
    let shape = probe_shape(
        &cols(&[("id", false), ("mood_id", true), ("file_path", true)]),
        &cols(&[("id", false), ("mood_id", true)]),
        &cols(&[("id", false)]),
        &cols(&[("id", false), ("timeline_id", false), ("start_time_ms", false)]),
        false,
    );
    assert!(shape.elements_has_mood_id);
    assert!(!shape.elements_has_sound_set_id);
    let steps = plan_migrations(&shape);
    assert_eq!(
        steps,
        vec![
            MigrationStep::AddElementSoundSet,
            MigrationStep::AddTimelineLooping,
            MigrationStep::AddTrackLooping,
            MigrationStep::AddElementChannel,
            MigrationStep::RebuildClips { backfill_tracks: true },
            MigrationStep::DedupeTimelines,
            MigrationStep::RebuildElements { from_mood: true },
        ]
    );
    let after = apply(&steps, shape);
    assert_eq!(after, current());
    assert!(plan_migrations(&after).is_empty());
}

#[test]
fn not_null_sound_set_column_is_rebuilt() {
    let shape = probe_shape(
        &cols(&[("id", false), ("sound_set_id", true), ("channel_id", false)]),
        &cols(&[("is_looping", false)]),
        &cols(&[("is_looping", false)]),
        &cols(&[("track_id", false)]),
        true,
    );
    assert!(shape.elements_sound_set_id_not_null);
    assert_eq!(
        plan_migrations(&shape),
        vec![
            MigrationStep::RebuildClips { backfill_tracks: false },
            MigrationStep::RebuildElements { from_mood: false },
        ]
    );
}

#[test]
fn running_migrations_twice_is_idempotent() {
    let shape = probe_shape(&cols(&[("mood_id", false), ("sound_set_id", false)]), &cols(&[]), &cols(&[]), &cols(&[]), true);
    let first = plan_migrations(&shape);
    assert!(!first.is_empty());
    let after = apply(&first, shape);
    assert!(plan_migrations(&after).is_empty());
}

#[test]
fn discard_keeps_lowest_id_per_mood() {
    let rows = vec![
        TimelineKey { id: 7, mood_id: 1 },
        TimelineKey { id: 3, mood_id: 1 },
        TimelineKey { id: 5, mood_id: 2 },
        TimelineKey { id: 9, mood_id: 1 },
    ];
    assert_eq!(timelines_to_discard(&rows), vec![7, 9]);
    assert!(timelines_to_discard(&Vec::new()).is_empty());
}
