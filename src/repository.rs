//! The decisions that the entity repository takes around its statements:
//! clip placement against the overlap rule, the one-timeline-per-mood rule,
//! order indexes of new rows, default channels and file handling policy.
use vstd::prelude::*;
use crate::model::{AppSettings, ClipSource, Timeline, TimelineElement};
use crate::text::is_blank;
use crate::text::is_blank_text;

verus! {

/// A refusal by the repository.
#[derive(Debug, Clone, Copy, PartialEq, Eq, Structural)]
pub enum StoreError {
    /// A clip names neither an audio element nor an element group.
    MissingClipSource,
    /// A clip names both an audio element and an element group.
    AmbiguousClipSource,
    /// The clip would overlap another clip of its track.
    Overlap,
    /// The highest order index in use is `i64::MAX`; no next one exists.
    OrderIndexExhausted,
}

/// The end of a clip, as an exact integer.
pub open spec fn clip_end(c: TimelineElement) -> int {
    c.start_time_ms + c.duration_ms
}

/// Whether the stored clip `c` collides with a proposed placement over
/// `[start, end)` on track `track_id`, unless `c` is the clip `exclude_id`.
pub open spec fn collides(
    c: TimelineElement,
    track_id: i64,
    start: int,
    end: int,
    exclude_id: Option<i64>,
) -> bool {
    &&& c.track_id == track_id
    &&& exclude_id != Some(c.id)
    &&& c.start_time_ms < end
    &&& start < clip_end(c)
}

/// Whether some clip of `clips` collides with `[start, start + duration)`
/// on `track_id`.
pub open spec fn overlaps(
    clips: Seq<TimelineElement>,
    track_id: i64,
    start: int,
    duration: int,
    exclude_id: Option<i64>,
) -> bool {
    exists|i: int|
        0 <= i < clips.len() && #[trigger] collides(
            clips[i],
            track_id,
            start,
            start + duration,
            exclude_id,
        )
}

/// No two distinct clips of one track overlap.
pub open spec fn placement_consistent(clips: Seq<TimelineElement>) -> bool {
    forall|i: int, j: int|
        0 <= i < clips.len() && 0 <= j < clips.len() && i != j && clips[i].track_id
            == clips[j].track_id ==> !(#[trigger] clips[i].start_time_ms < clip_end(
            #[trigger] clips[j],
        ) && clips[j].start_time_ms < clip_end(clips[i]))
}

/// The placement conflict validator: whether a clip over
/// `[start_time_ms, start_time_ms + duration_ms)` on `track_id` would overlap
/// one of the stored `clips`, leaving out the clip `exclude_id`. Clips that
/// only touch do not overlap.
pub fn check_element_overlap(
    clips: &Vec<TimelineElement>,
    track_id: i64,
    start_time_ms: i64,
    duration_ms: i64,
    exclude_id: Option<i64>,
) -> (r: bool)
    ensures
        r == overlaps(clips@, track_id, start_time_ms as int, duration_ms as int, exclude_id),
{
    let end: i128 = start_time_ms as i128 + duration_ms as i128;
    let mut i: usize = 0;
    while i < clips.len()
        invariant
            i <= clips.len(),
            end == start_time_ms + duration_ms,
            forall|j: int|
                0 <= j < i ==> !#[trigger] collides(
                    clips@[j],
                    track_id,
                    start_time_ms as int,
                    end as int,
                    exclude_id,
                ),
        decreases clips.len() - i,
    {
        let c = clips[i];
        let excluded = match exclude_id {
            Some(x) => x == c.id,
            None => false,
        };
        let c_end: i128 = c.start_time_ms as i128 + c.duration_ms as i128;
        if c.track_id == track_id && !excluded && (c.start_time_ms as i128) < end
            && (start_time_ms as i128) < c_end {
            assert(collides(clips@[i as int], track_id, start_time_ms as int, end as int, exclude_id));
            return true;
        }
        i += 1;
    }
    false
}

/// What a new clip plays, from its two optional references: exactly one
/// must be given.
pub open spec fn clip_source_of(
    audio_element_id: Option<i64>,
    element_group_id: Option<i64>,
) -> Result<ClipSource, StoreError> {
    match (audio_element_id, element_group_id) {
        (Some(a), None) => Ok(ClipSource::Element(a)),
        (None, Some(g)) => Ok(ClipSource::Group(g)),
        (None, None) => Err(StoreError::MissingClipSource),
        (Some(_), Some(_)) => Err(StoreError::AmbiguousClipSource),
    }
}

/// Checks a new clip before it is added to `track_id`, whose stored clips
/// are among `clips`: it must play exactly one thing and must not overlap.
pub fn validate_clip_placement(
    clips: &Vec<TimelineElement>,
    track_id: i64,
    audio_element_id: Option<i64>,
    element_group_id: Option<i64>,
    start_time_ms: i64,
    duration_ms: i64,
) -> (r: Result<ClipSource, StoreError>)
    ensures
        clip_source_of(audio_element_id, element_group_id) is Err ==> r == clip_source_of(
            audio_element_id,
            element_group_id,
        ),
        clip_source_of(audio_element_id, element_group_id) is Ok ==> r == (if overlaps(
            clips@,
            track_id,
            start_time_ms as int,
            duration_ms as int,
            None,
        ) {
            Err::<ClipSource, StoreError>(StoreError::Overlap)
        } else {
            clip_source_of(audio_element_id, element_group_id)
        }),
{
    let source = match (audio_element_id, element_group_id) {
        (Some(a), None) => ClipSource::Element(a),
        (None, Some(g)) => ClipSource::Group(g),
        (None, None) => {
            return Err(StoreError::MissingClipSource);
        },
        (Some(_), Some(_)) => {
            return Err(StoreError::AmbiguousClipSource);
        },
    };
    if check_element_overlap(clips, track_id, start_time_ms, duration_ms, None) {
        Err(StoreError::Overlap)
    } else {
        Ok(source)
    }
}

/// Checks that clip `id` of track `track_id` may be moved to
/// `[start_time_ms, start_time_ms + duration_ms)`: it must not overlap any
/// other clip of the track; its own stored slot does not count.
pub fn validate_clip_move(
    clips: &Vec<TimelineElement>,
    track_id: i64,
    id: i64,
    start_time_ms: i64,
    duration_ms: i64,
) -> (r: Result<(), StoreError>)
    ensures
        r is Err <==> overlaps(clips@, track_id, start_time_ms as int, duration_ms as int, Some(id)),
        r is Err ==> r == Err::<(), StoreError>(StoreError::Overlap),
{
    if check_element_overlap(clips, track_id, start_time_ms, duration_ms, Some(id)) {
        Err(StoreError::Overlap)
    } else {
        Ok(())
    }
}

/// With one stored clip `[s1, s1 + d1)` on a track, a proposed clip
/// `[s2, s2 + d2)` on the same track overlaps it exactly when
/// `s1 < s2 + d2` and `s2 < s1 + d1`; a clip that starts where the stored
/// one ends does not overlap it.
pub proof fn lemma_overlap_single(existing: TimelineElement, start: int, duration: int)
    ensures
        overlaps(seq![existing], existing.track_id, start, duration, None) <==> (
        existing.start_time_ms < start + duration && start < existing.start_time_ms
            + existing.duration_ms),
        start == existing.start_time_ms + existing.duration_ms ==> !overlaps(
            seq![existing],
            existing.track_id,
            start,
            duration,
            None,
        ),
{
    let s = seq![existing];
    if existing.start_time_ms < start + duration && start < existing.start_time_ms
        + existing.duration_ms {
        assert(collides(s[0], existing.track_id, start, start + duration, None));
    }
}

/// Moving a clip back onto the slot it already occupies is never refused as
/// an overlap, on a track whose clips do not overlap one another.
pub proof fn lemma_own_slot_free(clips: Seq<TimelineElement>, k: int)
    requires
        placement_consistent(clips),
        0 <= k < clips.len(),
    ensures
        !overlaps(
            clips,
            clips[k].track_id,
            clips[k].start_time_ms as int,
            clips[k].duration_ms as int,
            Some(clips[k].id),
        ),
{
    let c = clips[k];
    assert forall|i: int| 0 <= i < clips.len() implies !#[trigger] collides(
        clips[i],
        c.track_id,
        c.start_time_ms as int,
        c.start_time_ms + c.duration_ms,
        Some(c.id),
    ) by {
        if i != k && clips[i].track_id == c.track_id {
            assert(!(clips[i].start_time_ms < clip_end(clips[k]) && clips[k].start_time_ms
                < clip_end(clips[i])));
        }
    }
}

/// A clip accepted by the overlap check keeps the track free of overlaps.
pub proof fn lemma_accepted_clip_keeps_placement(clips: Seq<TimelineElement>, new: TimelineElement)
    requires
        placement_consistent(clips),
        !overlaps(clips, new.track_id, new.start_time_ms as int, new.duration_ms as int, None),
    ensures
        placement_consistent(clips.push(new)),
{
    let all = clips.push(new);
    assert forall|i: int, j: int|
        0 <= i < all.len() && 0 <= j < all.len() && i != j && all[i].track_id == all[j].track_id
            implies !(#[trigger] all[i].start_time_ms < clip_end(#[trigger] all[j])
            && all[j].start_time_ms < clip_end(all[i])) by {
        if i == clips.len() {
            assert(!collides(clips[j], new.track_id, new.start_time_ms as int, new.start_time_ms + new.duration_ms, None));
        } else if j == clips.len() {
            assert(!collides(clips[i], new.track_id, new.start_time_ms as int, new.start_time_ms + new.duration_ms, None));
        } else {
            assert(all[i] == clips[i] && all[j] == clips[j]);
        }
    }
}

/// A clip moved to a slot that the overlap check accepts, leaving out the
/// clip itself, keeps the track free of overlaps (clip ids are unique).
pub proof fn lemma_accepted_move_keeps_placement(
    clips: Seq<TimelineElement>,
    k: int,
    start: i64,
    duration: i64,
)
    requires
        placement_consistent(clips),
        0 <= k < clips.len(),
        forall|i: int, j: int| 0 <= i < clips.len() && 0 <= j < clips.len() && i != j ==> #[trigger] clips[i].id != #[trigger] clips[j].id,
        !overlaps(clips, clips[k].track_id, start as int, duration as int, Some(clips[k].id)),
    ensures
        placement_consistent(clips.update(k, TimelineElement { start_time_ms: start, duration_ms: duration, ..clips[k] })),
{
    let moved = TimelineElement { start_time_ms: start, duration_ms: duration, ..clips[k] };
    let all = clips.update(k, moved);
    assert forall|i: int, j: int|
        0 <= i < all.len() && 0 <= j < all.len() && i != j && all[i].track_id == all[j].track_id
            implies !(#[trigger] all[i].start_time_ms < clip_end(#[trigger] all[j])
            && all[j].start_time_ms < clip_end(all[i])) by {
        if i == k {
            assert(clips[j].id != clips[k].id);
            assert(!collides(clips[j], moved.track_id, start as int, start + duration, Some(clips[k].id)));
        } else if j == k {
            assert(clips[i].id != clips[k].id);
            assert(!collides(clips[i], moved.track_id, start as int, start + duration, Some(clips[k].id)));
        } else {
            assert(all[i] == clips[i] && all[j] == clips[j]);
        }
    }
}

/// What `create_timeline` does for a mood.
#[derive(Debug)]
pub enum TimelineCreation {
    /// The mood already has this timeline: it is returned unchanged.
    Existing(Timeline),
    /// Insert a timeline with `name` for `mood_id`, not looping, at order 0,
    /// and a first track named `first_track_name` at order 0.
    Create { mood_id: i64, name: String, first_track_name: String },
}

/// The id of the first timeline of `mood_id` in the table `rows`.
pub open spec fn first_timeline_id(rows: Seq<Timeline>, mood_id: i64) -> Option<i64>
    decreases rows.len(),
{
    if rows.len() == 0 {
        None
    } else if rows[0].mood_id == mood_id {
        Some(rows[0].id)
    } else {
        first_timeline_id(rows.drop_first(), mood_id)
    }
}

/// The id that `create_timeline` returns for `mood_id` on the table `rows`,
/// where a new row would get `new_id`.
pub open spec fn created_timeline_id(rows: Seq<Timeline>, mood_id: i64, new_id: i64) -> i64 {
    match first_timeline_id(rows, mood_id) {
        Some(id) => id,
        None => new_id,
    }
}

/// The timeline table after `create_timeline` for `mood_id`, where a new
/// row is `fresh`.
pub open spec fn table_after_creation(rows: Seq<Timeline>, mood_id: i64, fresh: Timeline) -> Seq<Timeline> {
    if first_timeline_id(rows, mood_id) is Some {
        rows
    } else {
        rows.push(fresh)
    }
}

proof fn lemma_first_timeline_push(rows: Seq<Timeline>, mood_id: i64, t: Timeline)
    ensures
        first_timeline_id(rows.push(t), mood_id) == (if first_timeline_id(rows, mood_id) is Some {
            first_timeline_id(rows, mood_id)
        } else if t.mood_id == mood_id {
            Some(t.id)
        } else {
            None
        }),
    decreases rows.len(),
{
    reveal_with_fuel(first_timeline_id, 2);
    if rows.len() == 0 {
        assert(rows.push(t).drop_first() =~= Seq::<Timeline>::empty());
        assert(rows.push(t)[0] == t);
    } else {
        assert(rows.push(t).drop_first() =~= rows.drop_first().push(t));
        assert(rows.push(t)[0] == rows[0]);
        lemma_first_timeline_push(rows.drop_first(), mood_id, t);
    }
}

/// The timelines of `mood_id` in the table `rows`, in table order: what
/// `create_timeline` finds when it looks the mood up.
pub open spec fn timelines_of(rows: Seq<Timeline>, mood_id: i64) -> Seq<Timeline>
    decreases rows.len(),
{
    if rows.len() == 0 {
        Seq::empty()
    } else if rows[0].mood_id == mood_id {
        seq![rows[0]] + timelines_of(rows.drop_first(), mood_id)
    } else {
        timelines_of(rows.drop_first(), mood_id)
    }
}

proof fn lemma_first_of_mood(rows: Seq<Timeline>, mood_id: i64)
    ensures
        first_timeline_id(rows, mood_id) == (if timelines_of(rows, mood_id).len() > 0 {
            Some(timelines_of(rows, mood_id)[0].id)
        } else {
            None
        }),
    decreases rows.len(),
{
    if rows.len() > 0 {
        lemma_first_of_mood(rows.drop_first(), mood_id);
    }
}

/// Creating a timeline for a mood that already has one returns the existing
/// timeline. After a first creation for `mood_id` (which inserts `fresh`
/// unless the mood had a timeline), the mood's timelines are not empty, so
/// `plan_timeline_creation` returns the first of them; its id is the id the
/// first creation returned; and the second creation leaves the table as it
/// is.
pub proof fn lemma_second_creation_returns_first(
    rows: Seq<Timeline>,
    mood_id: i64,
    fresh: Timeline,
    later: Timeline,
)
    requires
        fresh.mood_id == mood_id,
    ensures
        timelines_of(table_after_creation(rows, mood_id, fresh), mood_id).len() > 0,
        timelines_of(table_after_creation(rows, mood_id, fresh), mood_id)[0].id
            == created_timeline_id(rows, mood_id, fresh.id),
        table_after_creation(table_after_creation(rows, mood_id, fresh), mood_id, later)
            == table_after_creation(rows, mood_id, fresh),
{
    lemma_first_timeline_push(rows, mood_id, fresh);
    lemma_first_of_mood(rows, mood_id);
    lemma_first_of_mood(table_after_creation(rows, mood_id, fresh), mood_id);
}

/// Decides `create_timeline` for `mood_id` from `found`, the timelines
/// stored for that mood in table order.
pub fn plan_timeline_creation(found: Vec<Timeline>, mood_id: i64, name: String) -> (r: TimelineCreation)
    ensures
        found@.len() > 0 ==> r == TimelineCreation::Existing(found@[0]),
        found@.len() == 0 ==> (r matches TimelineCreation::Create { mood_id: m, name: n, first_track_name: f }
            && m == mood_id && n == name && f@ == "Track 1"@),
{
    let mut found = found;
    if found.len() > 0 {
        TimelineCreation::Existing(found.remove(0))
    } else {
        TimelineCreation::Create { mood_id, name, first_track_name: String::from_str("Track 1") }
    }
}

/// The largest of `xs`, which is not empty.
pub open spec fn seq_max(xs: Seq<i64>) -> int
    recommends
        xs.len() > 0,
    decreases xs.len(),
{
    if xs.len() <= 1 {
        xs[0] as int
    } else {
        let m = seq_max(xs.drop_last());
        if xs.last() > m { xs.last() as int } else { m }
    }
}

/// The order index that a new row gets among siblings with `order_indexes`:
/// one past the largest, or 0 for the first row.
pub open spec fn next_order(order_indexes: Seq<i64>) -> int {
    if order_indexes.len() == 0 { 0 } else { seq_max(order_indexes) + 1 }
}

/// The order index of a new track, channel or group member, one past the
/// largest among its siblings (0 for the first).
pub fn next_order_index(order_indexes: &Vec<i64>) -> (r: Result<i64, StoreError>)
    ensures
        next_order(order_indexes@) <= i64::MAX ==> r == Ok::<i64, StoreError>(
            next_order(order_indexes@) as i64,
        ),
        next_order(order_indexes@) > i64::MAX ==> r == Err::<i64, StoreError>(
            StoreError::OrderIndexExhausted,
        ),
{
    if order_indexes.len() == 0 {
        return Ok(0);
    }
    let mut m: i64 = order_indexes[0];
    let mut i: usize = 1;
    assert(order_indexes@.take(1).drop_last() =~= Seq::<i64>::empty());
    assert(order_indexes@.take(1) =~= seq![order_indexes@[0]]);
    while i < order_indexes.len()
        invariant
            1 <= i <= order_indexes.len(),
            m == seq_max(order_indexes@.take(i as int)),
        decreases order_indexes.len() - i,
    {
        assert(order_indexes@.take(i + 1).drop_last() =~= order_indexes@.take(i as int));
        if order_indexes[i] > m {
            m = order_indexes[i];
        }
        i += 1;
    }
    assert(order_indexes@.take(order_indexes.len() as int) =~= order_indexes@);
    if m == i64::MAX {
        Err(StoreError::OrderIndexExhausted)
    } else {
        Ok(m + 1)
    }
}

/// A channel to insert: name, icon, gain (as `f64` bits) and order.
#[derive(Debug)]
pub struct NewChannel {
    pub name: String,
    pub icon: String,
    pub volume_bits: u64,
    pub order_index: i64,
}

/// The bit pattern of the `f64` gain 1.0.
pub const UNIT_GAIN_BITS: u64 = 0x3FF0_0000_0000_0000;

/// The channels that `seed_default_channels` inserts into a sound set that
/// has `existing` channels: "Music", "Ambient" and "Sound Effects" at unit
/// gain, when it has none; nothing otherwise.
pub fn default_channels(existing: usize) -> (r: Vec<NewChannel>)
    ensures
        existing > 0 ==> r@.len() == 0,
        existing == 0 ==> {
            &&& r@.len() == 3
            &&& r@[0].name@ == "Music"@ && r@[0].icon@ == "music"@
            &&& r@[1].name@ == "Ambient"@ && r@[1].icon@ == "ambient"@
            &&& r@[2].name@ == "Sound Effects"@ && r@[2].icon@ == "sfx"@
            &&& forall|i: int| 0 <= i < 3 ==> #[trigger] r@[i].order_index == i && r@[i].volume_bits == UNIT_GAIN_BITS
        },
{
    let mut r: Vec<NewChannel> = Vec::new();
    if existing == 0 {
        r.push(NewChannel { name: String::from_str("Music"), icon: String::from_str("music"), volume_bits: UNIT_GAIN_BITS, order_index: 0 });
        r.push(NewChannel { name: String::from_str("Ambient"), icon: String::from_str("ambient"), volume_bits: UNIT_GAIN_BITS, order_index: 1 });
        r.push(NewChannel { name: String::from_str("Sound Effects"), icon: String::from_str("sfx"), volume_bits: UNIT_GAIN_BITS, order_index: 2 });
    }
    r
}

/// How a new audio element's file is stored.
#[derive(Debug, Clone, Copy, PartialEq, Eq, Structural)]
pub enum FileStrategy {
    /// The path the caller gave is stored as it is.
    Reference,
    /// The file is copied into the managed library directory first.
    Copy,
}

/// The policy named by the `audio_file_strategy` setting: `"copy"` selects
/// copying, anything else referencing.
pub fn file_strategy(setting: &String) -> (r: FileStrategy)
    ensures
        r == (if setting@ == "copy"@ { FileStrategy::Copy } else { FileStrategy::Reference }),
{
    if *setting == String::from_str("copy") {
        FileStrategy::Copy
    } else {
        FileStrategy::Reference
    }
}

/// Whether the configured library path is used; a blank one falls back to
/// the default library directory.
pub fn uses_configured_library(library_path: &str) -> (r: bool)
    ensures
        r == !is_blank_text(library_path@),
{
    !is_blank(library_path)
}

/// The settings in effect, from those read from the settings file (`None`
/// when it is absent or unreadable): defaults when there are none, and the
/// default library directory in place of a blank one.
pub fn resolve_app_settings(parsed: Option<AppSettings>, default_library_path: String) -> (r: AppSettings)
    ensures
        parsed is None ==> {
            &&& r.audio_file_strategy@ == "reference"@
            &&& r.library_path == default_library_path
            &&& r.output_device_id@.len() == 0
            &&& r.discord_bot_token@.len() == 0
            &&& r.discord_guild_id@.len() == 0
            &&& r.discord_channel_id@.len() == 0
        },
        parsed matches Some(p) ==> {
            &&& r.audio_file_strategy == p.audio_file_strategy
            &&& r.library_path == (if is_blank_text(p.library_path@) { default_library_path } else { p.library_path })
            &&& r.output_device_id == p.output_device_id
            &&& r.discord_bot_token == p.discord_bot_token
            &&& r.discord_guild_id == p.discord_guild_id
            &&& r.discord_channel_id == p.discord_channel_id
        },
{
    match parsed {
        Some(p) => {
            let blank = is_blank(p.library_path.as_str());
            AppSettings {
                audio_file_strategy: p.audio_file_strategy,
                library_path: if blank { default_library_path } else { p.library_path },
                output_device_id: p.output_device_id,
                discord_bot_token: p.discord_bot_token,
                discord_guild_id: p.discord_guild_id,
                discord_channel_id: p.discord_channel_id,
            }
        },
        None => AppSettings {
            audio_file_strategy: String::from_str("reference"),
            library_path: default_library_path,
            output_device_id: String::new(),
            discord_bot_token: String::new(),
            discord_guild_id: String::new(),
            discord_channel_id: String::new(),
        },
    }
}

} // verus!
