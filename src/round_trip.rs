//! What export followed by import preserves, and when import refuses a
//! package outright.
use vstd::prelude::*;
use crate::export::{
    archive_path_for, channel_exported, channel_name_for, clip_exported, clip_file_name,
    element_exported, last_channel_with_id, last_element_with_id, manifest_exported,
    mood_exported, track_exported, MoodSnapshot, SoundSetSnapshot, TrackSnapshot,
};
use crate::import_plan::{
    clip_triple, element_planned, import_planned, kept_clips, last_channel_named, last_element_named,
    mood_planned, track_planned, ImportPlan, PlannedClip, PlannedElement, PlannedMood,
    PlannedTrack,
};
use crate::model::{AudioChannel, AudioElement};
use crate::naming::{candidate_name, name_taken};
use crate::package::{
    archive_path_fault_from, archive_paths, element_fault_from, manifest_fault, path_fault_from,
    ExportChannel, ExportClip, ExportElement, ExportManifest, ExportTrack, PackageError,
    FORMAT_VERSION,
};
use crate::text::{is_blank_text, is_space};

verus! {

/// Every clip of the track plays an element among `els`.
pub open spec fn track_clips_resolve(t: TrackSnapshot, els: Seq<AudioElement>) -> bool {
    forall|c: int|
        0 <= c < t.clips@.len() ==> ((#[trigger] t.clips@[c]).audio_element_id matches Some(id)
            && last_element_with_id(els, id) is Some)
}

/// Every clip of the mood's timeline plays an element among `els`.
pub open spec fn mood_clips_resolve(m: MoodSnapshot, els: Seq<AudioElement>) -> bool {
    match m.timeline {
        None => true,
        Some(t) => forall|j: int| 0 <= j < t.tracks@.len() ==> #[trigger] track_clips_resolve(t.tracks@[j], els),
    }
}

/// The imported track `pt` reproduces the stored track `st`: its name and
/// order, and each clip's start and duration, playing an imported element
/// with the same file name.
pub open spec fn track_round_trips(
    pt: PlannedTrack,
    st: TrackSnapshot,
    p_els: Seq<PlannedElement>,
    s_els: Seq<AudioElement>,
) -> bool {
    &&& pt.name@ == st.name@
    &&& pt.order_index == st.order_index
    &&& pt.clips@.len() == st.clips@.len()
    &&& forall|c: int| 0 <= c < st.clips@.len() ==> {
        &&& (#[trigger] pt.clips@[c]).start_time_ms == st.clips@[c].start_time_ms
        &&& pt.clips@[c].duration_ms == st.clips@[c].duration_ms
        &&& pt.clips@[c].element_index < p_els.len()
        &&& p_els[pt.clips@[c].element_index as int].file_name@ == clip_file_name(s_els, st.clips@[c].audio_element_id)
    }
}

/// The imported mood `pm` reproduces the stored mood `sm` with its timeline.
pub open spec fn mood_round_trips(
    pm: PlannedMood,
    sm: MoodSnapshot,
    p_els: Seq<PlannedElement>,
    s_els: Seq<AudioElement>,
) -> bool {
    &&& pm.name@ == sm.name@
    &&& pm.description@ == sm.description@
    &&& match (pm.timeline, sm.timeline) {
        (None, None) => true,
        (Some(pt), Some(st)) => {
            &&& pt.is_looping == st.is_looping
            &&& pt.tracks@.len() == st.tracks@.len()
            &&& forall|j: int| 0 <= j < st.tracks@.len() ==> #[trigger] track_round_trips(pt.tracks@[j], st.tracks@[j], p_els, s_els)
        },
        _ => false,
    }
}

proof fn lemma_last_channel_named(chs: Seq<ExportChannel>, name: Seq<char>, q: int)
    ensures
        last_channel_named(chs, name) matches Some(k) ==> 0 <= k < chs.len() && chs[k].name@ == name,
        0 <= q < chs.len() && chs[q].name@ == name ==> last_channel_named(chs, name) is Some,
    decreases chs.len(),
{
    if chs.len() > 0 {
        lemma_last_channel_named(chs.drop_last(), name, q);
    }
}

proof fn lemma_last_element_named(els: Seq<ExportElement>, name: Seq<char>, q: int)
    ensures
        last_element_named(els, name) matches Some(k) ==> 0 <= k < els.len() && els[k].file_name@ == name,
        0 <= q < els.len() && els[q].file_name@ == name ==> last_element_named(els, name) is Some,
    decreases els.len(),
{
    if els.len() > 0 {
        lemma_last_element_named(els.drop_last(), name, q);
    }
}

proof fn lemma_last_channel_with_id(chs: Seq<AudioChannel>, id: i64)
    ensures
        last_channel_with_id(chs, id) matches Some(k) ==> 0 <= k < chs.len(),
    decreases chs.len(),
{
    if chs.len() > 0 {
        lemma_last_channel_with_id(chs.drop_last(), id);
    }
}

proof fn lemma_last_element_with_id(els: Seq<AudioElement>, id: i64)
    ensures
        last_element_with_id(els, id) matches Some(k) ==> 0 <= k < els.len(),
    decreases els.len(),
{
    if els.len() > 0 {
        lemma_last_element_with_id(els.drop_last(), id);
    }
}

proof fn lemma_kept_all(clips: Seq<ExportClip>, els: Seq<ExportElement>)
    requires
        forall|c: int| 0 <= c < clips.len() ==> last_element_named(els, (#[trigger] clips[c]).element_file_name@) is Some,
    ensures
        kept_clips(clips, els).len() == clips.len(),
        forall|c: int| 0 <= c < clips.len() ==> #[trigger] kept_clips(clips, els)[c] == (
            last_element_named(els, clips[c].element_file_name@)->0,
            clips[c].start_time_ms,
            clips[c].duration_ms,
        ),
    decreases clips.len(),
{
    if clips.len() > 0 {
        let front = clips.drop_last();
        assert forall|c: int| 0 <= c < front.len() implies last_element_named(els, (#[trigger] front[c]).element_file_name@) is Some by {
            assert(front[c] == clips[c]);
        }
        lemma_kept_all(front, els);
        assert(last_element_named(els, clips[clips.len() - 1].element_file_name@) is Some);
        assert forall|c: int| 0 <= c < clips.len() implies #[trigger] kept_clips(clips, els)[c] == (
            last_element_named(els, clips[c].element_file_name@)->0,
            clips[c].start_time_ms,
            clips[c].duration_ms,
        ) by {
            if c < clips.len() - 1 {
                assert(front[c] == clips[c]);
            }
        }
    }
}

proof fn lemma_track_round_trip(
    pt: PlannedTrack,
    mt: ExportTrack,
    st: TrackSnapshot,
    p: ImportPlan,
    m: ExportManifest,
    s: SoundSetSnapshot,
)
    requires
        manifest_exported(m, s),
        import_planned(p, m, Seq::empty()),
        track_exported(mt, st, s.elements@),
        track_planned(pt, mt, m.elements@),
        track_clips_resolve(st, s.elements@),
    ensures
        track_round_trips(pt, st, p.elements@, s.elements@),
{
    let els = m.elements@;
    assert forall|c: int| 0 <= c < mt.clips@.len() implies last_element_named(els, (#[trigger] mt.clips@[c]).element_file_name@) is Some by {
        assert(clip_exported(mt.clips@[c], st.clips@[c], s.elements@));
        let sc = st.clips@[c];
        assert(sc.audio_element_id is Some);
        let id = sc.audio_element_id->0;
        let q = last_element_with_id(s.elements@, id)->0;
        lemma_last_element_with_id(s.elements@, id);
        assert(element_exported(m.elements@[q], s.elements@[q], s.channels@));
        lemma_last_element_named(els, mt.clips@[c].element_file_name@, q);
    }
    lemma_kept_all(mt.clips@, els);
    let view = pt.clips@.map_values(|c: PlannedClip| clip_triple(c));
    assert forall|c: int| 0 <= c < st.clips@.len() implies {
        &&& (#[trigger] pt.clips@[c]).start_time_ms == st.clips@[c].start_time_ms
        &&& pt.clips@[c].duration_ms == st.clips@[c].duration_ms
        &&& pt.clips@[c].element_index < p.elements@.len()
        &&& p.elements@[pt.clips@[c].element_index as int].file_name@ == clip_file_name(s.elements@, st.clips@[c].audio_element_id)
    } by {
        assert(clip_exported(mt.clips@[c], st.clips@[c], s.elements@));
        assert(view[c] == kept_clips(mt.clips@, els)[c]);
        let name = mt.clips@[c].element_file_name@;
        lemma_last_element_named(els, name, 0);
        let k = last_element_named(els, name)->0;
        assert(element_planned(p.elements@[k], m.elements@[k], m.channels@));
    }
}

/// Exporting a sound set and importing the package into an empty store
/// reproduces it: the same name, the same channel names and gains, the same
/// element file names with the same channel names, and the same clip starts
/// and durations, each clip playing an element with the same file name.
/// This holds where every clip plays an element of the set; that the import
/// succeeds at all is `lemma_exported_manifest_importable`.
pub proof fn lemma_export_import_round_trip(s: SoundSetSnapshot, m: ExportManifest, p: ImportPlan)
    requires
        manifest_exported(m, s),
        import_planned(p, m, Seq::empty()),
        forall|i: int| 0 <= i < s.moods@.len() ==> #[trigger] mood_clips_resolve(s.moods@[i], s.elements@),
    ensures
        p.sound_set_name@ == s.name@,
        p.description@ == s.description@,
        p.channels@.len() == s.channels@.len(),
        forall|i: int| 0 <= i < s.channels@.len() ==> {
            &&& (#[trigger] p.channels@[i]).name@ == s.channels@[i].name@
            &&& p.channels@[i].volume_bits == s.channels@[i].volume_bits
        },
        p.elements@.len() == s.elements@.len(),
        forall|i: int| 0 <= i < s.elements@.len() ==> {
            &&& (#[trigger] p.elements@[i]).file_name@ == s.elements@[i].file_name@
            &&& match p.elements@[i].channel_index {
                Some(k) => k < p.channels@.len() && channel_name_for(s.channels@, s.elements@[i].channel_id) == Some(p.channels@[k as int].name@),
                None => channel_name_for(s.channels@, s.elements@[i].channel_id) is None,
            }
        },
        p.moods@.len() == s.moods@.len(),
        forall|i: int| 0 <= i < s.moods@.len() ==> #[trigger] mood_round_trips(p.moods@[i], s.moods@[i], p.elements@, s.elements@),
{
    let k0 = choose|k: nat| {
        &&& p.sound_set_name@ == #[trigger] candidate_name(m.soundset.name@, k)
        &&& !name_taken(Seq::empty(), p.sound_set_name@)
        &&& forall|j: nat| j < k ==> name_taken(Seq::<String>::empty(), #[trigger] candidate_name(m.soundset.name@, j))
    };
    if k0 > 0 {
        assert(name_taken(Seq::<String>::empty(), candidate_name(m.soundset.name@, 0)));
    }
    assert forall|i: int| 0 <= i < s.channels@.len() implies {
        &&& (#[trigger] p.channels@[i]).name@ == s.channels@[i].name@
        &&& p.channels@[i].volume_bits == s.channels@[i].volume_bits
    } by {
        assert(channel_exported(m.channels@[i], s.channels@[i]));
    }
    assert forall|i: int| 0 <= i < s.elements@.len() implies {
        &&& (#[trigger] p.elements@[i]).file_name@ == s.elements@[i].file_name@
        &&& match p.elements@[i].channel_index {
            Some(k) => k < p.channels@.len() && channel_name_for(s.channels@, s.elements@[i].channel_id) == Some(p.channels@[k as int].name@),
            None => channel_name_for(s.channels@, s.elements@[i].channel_id) is None,
        }
    } by {
        assert(element_exported(m.elements@[i], s.elements@[i], s.channels@));
        assert(element_planned(p.elements@[i], m.elements@[i], m.channels@));
        let e = s.elements@[i];
        match channel_name_for(s.channels@, e.channel_id) {
            Some(name) => {
                let id = e.channel_id->0;
                let q = last_channel_with_id(s.channels@, id)->0;
                lemma_last_channel_with_id(s.channels@, id);
                assert(channel_exported(m.channels@[q], s.channels@[q]));
                lemma_last_channel_named(m.channels@, name, q);
                let k = last_channel_named(m.channels@, name)->0;
                assert(channel_exported(m.channels@[k], s.channels@[k]));
            },
            None => {},
        }
    }
    assert forall|i: int| 0 <= i < s.moods@.len() implies #[trigger] mood_round_trips(p.moods@[i], s.moods@[i], p.elements@, s.elements@) by {
        assert(mood_exported(m.moods@[i], s.moods@[i], s.elements@));
        assert(mood_planned(p.moods@[i], m.moods@[i], m.elements@));
        assert(mood_clips_resolve(s.moods@[i], s.elements@));
        match (p.moods@[i].timeline, m.moods@[i].timeline, s.moods@[i].timeline) {
            (Some(pt), Some(mt), Some(st)) => {
                assert forall|j: int| 0 <= j < st.tracks@.len() implies #[trigger] track_round_trips(pt.tracks@[j], st.tracks@[j], p.elements@, s.elements@) by {
                    assert(track_exported(mt.tracks@[j], st.tracks@[j], s.elements@));
                    assert(track_planned(pt.tracks@[j], mt.tracks@[j], m.elements@));
                    assert(track_clips_resolve(st.tracks@[j], s.elements@));
                    lemma_track_round_trip(pt.tracks@[j], mt.tracks@[j], st.tracks@[j], p, m, s);
                }
            },
            _ => {},
        }
    }
}

proof fn lemma_no_element_fault(els: Seq<ExportElement>, i: int)
    requires
        0 <= i,
        forall|k: int| i <= k < els.len() ==> !is_blank_text((#[trigger] els[k]).archive_path@) && !is_blank_text(els[k].file_name@),
    ensures
        element_fault_from(els, i) is None,
    decreases els.len() - i,
{
    if i < els.len() {
        lemma_no_element_fault(els, i + 1);
    }
}

/// The package of a sound set whose export succeeded passes the import's
/// validation, when the sound set's name and its elements' file names are
/// not blank: `plan_import` then succeeds on it.
pub proof fn lemma_exported_manifest_importable(s: SoundSetSnapshot, m: ExportManifest)
    requires
        manifest_exported(m, s),
        archive_path_fault_from(
            Seq::new(s.elements@.len(), |i: int| archive_path_for(s.elements@[i].file_name@)),
            0,
        ) is None,
        !is_blank_text(s.name@),
        forall|i: int| 0 <= i < s.elements@.len() ==> !is_blank_text((#[trigger] s.elements@[i]).file_name@),
    ensures
        manifest_fault(m) is None,
        path_fault_from(m.elements@, 0) is None,
{
    reveal_strlit("audio/");
    let els = m.elements@;
    assert forall|k: int| 0 <= k < els.len() implies !is_blank_text((#[trigger] els[k]).archive_path@) && !is_blank_text(els[k].file_name@) by {
        assert(element_exported(els[k], s.elements@[k], s.channels@));
        assert(els[k].archive_path@[0] == 'a');
        assert(!is_space(els[k].archive_path@[0]));
    }
    lemma_no_element_fault(els, 0);
    let ps = Seq::new(s.elements@.len(), |i: int| archive_path_for(s.elements@[i].file_name@));
    assert forall|k: int| 0 <= k < ps.len() implies archive_paths(els)[k] == ps[k] by {
        assert(element_exported(els[k], s.elements@[k], s.channels@));
    }
    assert(archive_paths(els) =~= ps);
}

/// A package whose format version is not the supported one is refused by
/// its version, before anything else is looked at: `plan_import` returns
/// that error and no plan, so nothing is inserted or extracted.
pub proof fn lemma_foreign_version_refused(m: ExportManifest)
    requires
        m.format_version != FORMAT_VERSION,
    ensures
        manifest_fault(m) == Some(PackageError::UnsupportedFormatVersion(m.format_version)),
{
}

} // verus!
