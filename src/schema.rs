//! Schema evolution: which of the store's historical schema changes a
//! database still lacks, decided from what its catalog shows.
//!
//! The catalog is read into a [`SchemaShape`]; [`plan_migrations`] lists the
//! changes to apply, in the one order in which each finds the shape it needs.
//! Applying the plan yields the current shape, on which the plan is empty.
use vstd::prelude::*;

verus! {

/// One column as the catalog lists it (`PRAGMA table_info`).
pub struct ColumnInfo {
    pub name: String,
    pub not_null: bool,
}

/// The facts about a database's physical shape that the migrations depend on.
#[derive(Clone, Copy, Debug, PartialEq, Eq, Structural)]
pub struct SchemaShape {
    /// `audio_elements` still has the legacy `mood_id` column.
    pub elements_has_mood_id: bool,
    /// `audio_elements` has a `sound_set_id` column.
    pub elements_has_sound_set_id: bool,
    /// `audio_elements.sound_set_id` is declared `NOT NULL`.
    pub elements_sound_set_id_not_null: bool,
    /// `audio_elements` has a `channel_id` column.
    pub elements_has_channel_id: bool,
    /// `timelines` has an `is_looping` column.
    pub timelines_has_is_looping: bool,
    /// `timeline_tracks` has an `is_looping` column.
    pub tracks_has_is_looping: bool,
    /// `timeline_elements` has a `track_id` column.
    pub clips_has_track_id: bool,
    /// `timeline_elements` has an `element_group_id` column.
    pub clips_has_group_id: bool,
    /// The unique index on `timelines(mood_id)` exists.
    pub has_timeline_mood_index: bool,
}

/// One schema change, in the form the executor applies it.
#[derive(Clone, Copy, Debug, PartialEq, Eq, Structural)]
pub enum MigrationStep {
    /// Add `audio_elements.sound_set_id`, filled from each element's mood.
    AddElementSoundSet,
    /// Add `timelines.is_looping`, default off.
    AddTimelineLooping,
    /// Add `timeline_tracks.is_looping`, default off.
    AddTrackLooping,
    /// Add `audio_elements.channel_id`; give each sound set with elements a
    /// "Music" channel and assign its elements to it.
    AddElementChannel,
    /// Rebuild `timeline_elements` with `track_id` and `element_group_id`;
    /// with `backfill_tracks`, first give each timeline a "Master Track" and
    /// place its clips on it.
    RebuildClips { backfill_tracks: bool },
    /// Keep only the lowest-id timeline of each mood, then create the unique
    /// index on `timelines(mood_id)`.
    DedupeTimelines,
    /// Rebuild `audio_elements` with a nullable `sound_set_id` and without
    /// `mood_id`; with `from_mood`, a missing sound set is taken from the mood.
    RebuildElements { from_mood: bool },
}

/// The shape of a database that is up to date.
pub open spec fn current_shape() -> SchemaShape {
    SchemaShape {
        elements_has_mood_id: false,
        elements_has_sound_set_id: true,
        elements_sound_set_id_not_null: false,
        elements_has_channel_id: true,
        timelines_has_is_looping: true,
        tracks_has_is_looping: true,
        clips_has_track_id: true,
        clips_has_group_id: true,
        has_timeline_mood_index: true,
    }
}

/// The steps that a database of shape `s` needs, in the order they run.
pub open spec fn migration_plan(s: SchemaShape) -> Seq<MigrationStep> {
    let none = Seq::<MigrationStep>::empty();
    let after_sound_set = if s.elements_has_mood_id && !s.elements_has_sound_set_id {
        none.push(MigrationStep::AddElementSoundSet)
    } else {
        none
    };
    let after_timeline_loop = if !s.timelines_has_is_looping {
        after_sound_set.push(MigrationStep::AddTimelineLooping)
    } else {
        after_sound_set
    };
    let after_track_loop = if !s.tracks_has_is_looping {
        after_timeline_loop.push(MigrationStep::AddTrackLooping)
    } else {
        after_timeline_loop
    };
    let after_channel = if !s.elements_has_channel_id {
        after_track_loop.push(MigrationStep::AddElementChannel)
    } else {
        after_track_loop
    };
    let after_clips = if !s.clips_has_track_id || !s.clips_has_group_id {
        after_channel.push(MigrationStep::RebuildClips { backfill_tracks: !s.clips_has_track_id })
    } else {
        after_channel
    };
    let after_index = if !s.has_timeline_mood_index {
        after_clips.push(MigrationStep::DedupeTimelines)
    } else {
        after_clips
    };
    if s.elements_has_mood_id || s.elements_sound_set_id_not_null {
        after_index.push(MigrationStep::RebuildElements { from_mood: s.elements_has_mood_id })
    } else {
        after_index
    }
}

/// The shape after applying `step` to a database of shape `s`.
pub open spec fn apply_step(step: MigrationStep, s: SchemaShape) -> SchemaShape {
    match step {
        MigrationStep::AddElementSoundSet => SchemaShape { elements_has_sound_set_id: true, ..s },
        MigrationStep::AddTimelineLooping => SchemaShape { timelines_has_is_looping: true, ..s },
        MigrationStep::AddTrackLooping => SchemaShape { tracks_has_is_looping: true, ..s },
        MigrationStep::AddElementChannel => SchemaShape { elements_has_channel_id: true, ..s },
        MigrationStep::RebuildClips { .. } => SchemaShape {
            clips_has_track_id: true,
            clips_has_group_id: true,
            ..s
        },
        MigrationStep::DedupeTimelines => SchemaShape { has_timeline_mood_index: true, ..s },
        MigrationStep::RebuildElements { .. } => SchemaShape {
            elements_has_mood_id: false,
            elements_has_sound_set_id: true,
            elements_sound_set_id_not_null: false,
            elements_has_channel_id: true,
            ..s
        },
    }
}

/// The shape after applying `steps` in order, starting from `s`.
pub open spec fn apply_steps(steps: Seq<MigrationStep>, s: SchemaShape) -> SchemaShape
    decreases steps.len(),
{
    if steps.len() == 0 {
        s
    } else {
        apply_steps(steps.drop_first(), apply_step(steps[0], s))
    }
}

/// What a step reads from the old tables, which must be there when it runs.
pub open spec fn step_ready(step: MigrationStep, s: SchemaShape) -> bool {
    match step {
        MigrationStep::AddElementSoundSet => s.elements_has_mood_id,
        MigrationStep::AddElementChannel => s.elements_has_sound_set_id,
        MigrationStep::RebuildClips { backfill_tracks } => backfill_tracks == !s.clips_has_track_id,
        MigrationStep::RebuildElements { from_mood } => {
            &&& s.elements_has_sound_set_id
            &&& s.elements_has_channel_id
            &&& from_mood == s.elements_has_mood_id
        },
        _ => true,
    }
}

/// Every step of `steps`, applied in order from `s`, finds what it reads.
pub open spec fn steps_ready(steps: Seq<MigrationStep>, s: SchemaShape) -> bool
    decreases steps.len(),
{
    steps.len() == 0 || (step_ready(steps[0], s) && steps_ready(
        steps.drop_first(),
        apply_step(steps[0], s),
    ))
}

/// A shape that some version of the store produced: the elements table has
/// always held either the legacy mood reference or the sound set reference.
pub open spec fn historical_shape(s: SchemaShape) -> bool {
    s.elements_has_mood_id || s.elements_has_sound_set_id
}

/// Whether the catalog listing `cols` holds a column named `name`.
pub open spec fn has_column(cols: Seq<ColumnInfo>, name: Seq<char>) -> bool {
    exists|i: int| 0 <= i < cols.len() && (#[trigger] cols[i]).name@ == name
}

/// Whether the catalog listing `cols` holds a `NOT NULL` column named `name`.
pub open spec fn has_not_null_column(cols: Seq<ColumnInfo>, name: Seq<char>) -> bool {
    exists|i: int| 0 <= i < cols.len() && (#[trigger] cols[i]).name@ == name && cols[i].not_null
}

fn find_column(cols: &Vec<ColumnInfo>, name: &str, need_not_null: bool) -> (r: bool)
    ensures
        !need_not_null ==> r == has_column(cols@, name@),
        need_not_null ==> r == has_not_null_column(cols@, name@),
{
    let wanted = String::from_str(name);
    let mut i: usize = 0;
    while i < cols.len()
        invariant
            i <= cols.len(),
            wanted@ == name@,
            forall|j: int|
                0 <= j < i ==> !((#[trigger] cols@[j]).name@ == name@ && (!need_not_null
                    || cols@[j].not_null)),
        decreases cols.len() - i,
    {
        if cols[i].name == wanted && (!need_not_null || cols[i].not_null) {
            return true;
        }
        i += 1;
    }
    false
}

/// Reads the shape from the column listings of the four evolving tables and
/// from whether the unique timeline index exists.
pub fn probe_shape(
    elements: &Vec<ColumnInfo>,
    timelines: &Vec<ColumnInfo>,
    tracks: &Vec<ColumnInfo>,
    clips: &Vec<ColumnInfo>,
    has_timeline_mood_index: bool,
) -> (s: SchemaShape)
    ensures
        s.elements_has_mood_id == has_column(elements@, "mood_id"@),
        s.elements_has_sound_set_id == has_column(elements@, "sound_set_id"@),
        s.elements_sound_set_id_not_null == has_not_null_column(elements@, "sound_set_id"@),
        s.elements_has_channel_id == has_column(elements@, "channel_id"@),
        s.timelines_has_is_looping == has_column(timelines@, "is_looping"@),
        s.tracks_has_is_looping == has_column(tracks@, "is_looping"@),
        s.clips_has_track_id == has_column(clips@, "track_id"@),
        s.clips_has_group_id == has_column(clips@, "element_group_id"@),
        s.has_timeline_mood_index == has_timeline_mood_index,
{
    SchemaShape {
        elements_has_mood_id: find_column(elements, "mood_id", false),
        elements_has_sound_set_id: find_column(elements, "sound_set_id", false),
        elements_sound_set_id_not_null: find_column(elements, "sound_set_id", true),
        elements_has_channel_id: find_column(elements, "channel_id", false),
        timelines_has_is_looping: find_column(timelines, "is_looping", false),
        tracks_has_is_looping: find_column(tracks, "is_looping", false),
        clips_has_track_id: find_column(clips, "track_id", false),
        clips_has_group_id: find_column(clips, "element_group_id", false),
        has_timeline_mood_index,
    }
}

/// The steps that a database of shape `s` needs, in the order they must run.
pub fn plan_migrations(s: &SchemaShape) -> (steps: Vec<MigrationStep>)
    ensures
        steps@ == migration_plan(*s),
{
    let mut steps: Vec<MigrationStep> = Vec::new();
    if s.elements_has_mood_id && !s.elements_has_sound_set_id {
        steps.push(MigrationStep::AddElementSoundSet);
    }
    if !s.timelines_has_is_looping {
        steps.push(MigrationStep::AddTimelineLooping);
    }
    if !s.tracks_has_is_looping {
        steps.push(MigrationStep::AddTrackLooping);
    }
    if !s.elements_has_channel_id {
        steps.push(MigrationStep::AddElementChannel);
    }
    if !s.clips_has_track_id || !s.clips_has_group_id {
        steps.push(MigrationStep::RebuildClips { backfill_tracks: !s.clips_has_track_id });
    }
    if !s.has_timeline_mood_index {
        steps.push(MigrationStep::DedupeTimelines);
    }
    if s.elements_has_mood_id || s.elements_sound_set_id_not_null {
        steps.push(MigrationStep::RebuildElements { from_mood: s.elements_has_mood_id });
    }
    steps
}

proof fn lemma_apply_push(steps: Seq<MigrationStep>, x: MigrationStep, s: SchemaShape)
    ensures
        apply_steps(steps.push(x), s) == apply_step(x, apply_steps(steps, s)),
        steps_ready(steps.push(x), s) == (steps_ready(steps, s) && step_ready(
            x,
            apply_steps(steps, s),
        )),
    decreases steps.len(),
{
    reveal_with_fuel(apply_steps, 2);
    reveal_with_fuel(steps_ready, 2);
    if steps.len() == 0 {
        assert(steps.push(x).drop_first() =~= Seq::<MigrationStep>::empty());
        assert(steps.push(x)[0] == x);
    } else {
        assert(steps.push(x).drop_first() =~= steps.drop_first().push(x));
        assert(steps.push(x)[0] == steps[0]);
        lemma_apply_push(steps.drop_first(), x, apply_step(steps[0], s));
    }
}

/// Applies `lemma_apply_push` to each stage of `migration_plan(s)`.
proof fn lemma_plan_stages(s: SchemaShape)
    ensures
        historical_shape(s) ==> apply_steps(migration_plan(s), s) == current_shape(),
        migration_plan(apply_steps(migration_plan(s), s)).len() == 0,
        historical_shape(s) ==> steps_ready(migration_plan(s), s),
{
    let none = Seq::<MigrationStep>::empty();
    let after_sound_set = if s.elements_has_mood_id && !s.elements_has_sound_set_id {
        none.push(MigrationStep::AddElementSoundSet)
    } else {
        none
    };
    let after_timeline_loop = if !s.timelines_has_is_looping {
        after_sound_set.push(MigrationStep::AddTimelineLooping)
    } else {
        after_sound_set
    };
    let after_track_loop = if !s.tracks_has_is_looping {
        after_timeline_loop.push(MigrationStep::AddTrackLooping)
    } else {
        after_timeline_loop
    };
    let after_channel = if !s.elements_has_channel_id {
        after_track_loop.push(MigrationStep::AddElementChannel)
    } else {
        after_track_loop
    };
    let rebuild_clips = MigrationStep::RebuildClips { backfill_tracks: !s.clips_has_track_id };
    let after_clips = if !s.clips_has_track_id || !s.clips_has_group_id {
        after_channel.push(rebuild_clips)
    } else {
        after_channel
    };
    let after_index = if !s.has_timeline_mood_index {
        after_clips.push(MigrationStep::DedupeTimelines)
    } else {
        after_clips
    };
    let rebuild_elements = MigrationStep::RebuildElements { from_mood: s.elements_has_mood_id };
    let all_steps = if s.elements_has_mood_id || s.elements_sound_set_id_not_null {
        after_index.push(rebuild_elements)
    } else {
        after_index
    };
    assert(all_steps == migration_plan(s));
    lemma_apply_push(none, MigrationStep::AddElementSoundSet, s);
    lemma_apply_push(after_sound_set, MigrationStep::AddTimelineLooping, s);
    lemma_apply_push(after_timeline_loop, MigrationStep::AddTrackLooping, s);
    lemma_apply_push(after_track_loop, MigrationStep::AddElementChannel, s);
    lemma_apply_push(after_channel, rebuild_clips, s);
    lemma_apply_push(after_clips, MigrationStep::DedupeTimelines, s);
    lemma_apply_push(after_index, rebuild_elements, s);
}

/// Running the schema manager twice changes nothing the second time: after
/// the plan has been applied, the plan for the resulting shape is empty; and
/// from any shape that a version of the store produced, the result is the
/// current shape.
pub proof fn lemma_migration_idempotent(s: SchemaShape)
    ensures
        migration_plan(apply_steps(migration_plan(s), s)).len() == 0,
        historical_shape(s) ==> apply_steps(migration_plan(s), s) == current_shape(),
{
    lemma_plan_stages(s);
}

/// On any shape that a version of the store produced, each planned step
/// finds the columns it reads, left there by the steps before it.
pub proof fn lemma_migration_plan_ready(s: SchemaShape)
    requires
        historical_shape(s),
    ensures
        steps_ready(migration_plan(s), s),
{
    lemma_plan_stages(s);
}

/// One timeline row as the deduplication reads it.
#[derive(Clone, Copy, Debug, PartialEq, Eq, Structural)]
pub struct TimelineKey {
    pub id: i64,
    pub mood_id: i64,
}

/// A row is superseded when another timeline of its mood in `rows` has a
/// lower id.
pub open spec fn superseded(rows: Seq<TimelineKey>, r: TimelineKey) -> bool {
    exists|j: int| 0 <= j < rows.len() && (#[trigger] rows[j]).mood_id == r.mood_id && rows[j].id < r.id
}

/// The ids of the rows of `part` that are superseded within `rows`, in order.
pub open spec fn superseded_ids(rows: Seq<TimelineKey>, part: Seq<TimelineKey>) -> Seq<i64>
    decreases part.len(),
{
    if part.len() == 0 {
        Seq::empty()
    } else {
        let rest = superseded_ids(rows, part.drop_last());
        if superseded(rows, part.last()) { rest.push(part.last().id) } else { rest }
    }
}

/// The timelines that the unique-index migration deletes, in row order: all
/// but the lowest-id timeline of each mood.
pub fn timelines_to_discard(rows: &Vec<TimelineKey>) -> (ids: Vec<i64>)
    ensures
        ids@ == superseded_ids(rows@, rows@),
{
    let mut ids: Vec<i64> = Vec::new();
    let mut i: usize = 0;
    while i < rows.len()
        invariant
            i <= rows.len(),
            ids@ == superseded_ids(rows@, rows@.take(i as int)),
        decreases rows.len() - i,
    {
        let mut found = false;
        let mut j: usize = 0;
        while j < rows.len()
            invariant
                i < rows.len(),
                j <= rows.len(),
                found ==> superseded(rows@, rows@[i as int]),
                !found ==> forall|m: int|
                    0 <= m < j ==> !((#[trigger] rows@[m]).mood_id == rows@[i as int].mood_id
                        && rows@[m].id < rows@[i as int].id),
            decreases rows.len() - j,
        {
            if rows[j].mood_id == rows[i].mood_id && rows[j].id < rows[i].id {
                found = true;
            }
            j += 1;
        }
        assert(rows@.take(i + 1).drop_last() == rows@.take(i as int));
        assert(rows@.take(i + 1).last() == rows@[i as int]);
        if found {
            ids.push(rows[i].id);
        }
        i += 1;
    }
    assert(rows@.take(rows.len() as int) == rows@);
    ids
}

} // verus!
