//! The plan by which a package is imported: every row to insert, in order,
//! with references between new rows given by position.
use vstd::prelude::*;
use crate::naming::{is_resolved_name, resolve_sound_set_name};
use crate::package::{
    manifest_fault, path_fault_from, validate_archive_paths, validate_manifest_for_packaging,
    ExportChannel, ExportClip, ExportElement, ExportManifest, ExportMood, ExportTimeline, ExportTrack,
    PackageError,
};

verus! {

/// An element to import: its file is extracted from `archive_path`, and
/// its channel is the imported channel at `channel_index`, if any.
#[derive(Debug)]
pub struct PlannedElement {
    pub file_name: String,
    pub archive_path: String,
    pub channel_index: Option<usize>,
    pub channel_type: String,
    pub volume_db_bits: u64,
}

/// A clip to import, playing the imported element at `element_index`.
#[derive(Debug, Clone, Copy, PartialEq, Eq, Structural)]
pub struct PlannedClip {
    pub element_index: usize,
    pub start_time_ms: i64,
    pub duration_ms: i64,
}

/// A track to import.
#[derive(Debug)]
pub struct PlannedTrack {
    pub name: String,
    pub order_index: i64,
    pub clips: Vec<PlannedClip>,
}

/// A timeline to import.
#[derive(Debug)]
pub struct PlannedTimeline {
    pub is_looping: bool,
    pub tracks: Vec<PlannedTrack>,
}

/// A mood to import.
#[derive(Debug)]
pub struct PlannedMood {
    pub name: String,
    pub description: String,
    pub timeline: Option<PlannedTimeline>,
}

/// Everything an import inserts, in insertion order, with references between
/// the new rows given by position.
#[derive(Debug)]
pub struct ImportPlan {
    pub sound_set_name: String,
    pub description: String,
    pub channels: Vec<ExportChannel>,
    pub elements: Vec<PlannedElement>,
    pub moods: Vec<PlannedMood>,
}

/// The position of the last channel of `chs` named `name`: the one that a
/// name lookup built in insertion order finds.
pub open spec fn last_channel_named(chs: Seq<ExportChannel>, name: Seq<char>) -> Option<int>
    decreases chs.len(),
{
    if chs.len() == 0 {
        None
    } else if chs.last().name@ == name {
        Some(chs.len() - 1)
    } else {
        last_channel_named(chs.drop_last(), name)
    }
}

/// The position of the last element of `els` with file name `name`.
pub open spec fn last_element_named(els: Seq<ExportElement>, name: Seq<char>) -> Option<int>
    decreases els.len(),
{
    if els.len() == 0 {
        None
    } else if els.last().file_name@ == name {
        Some(els.len() - 1)
    } else {
        last_element_named(els.drop_last(), name)
    }
}

/// The imported channel that an element named by `name` is assigned to.
pub open spec fn channel_index_for(chs: Seq<ExportChannel>, name: Option<String>) -> Option<int> {
    match name {
        None => None,
        Some(n) => last_channel_named(chs, n@),
    }
}

/// The clips of a track that an import keeps, as (element position, start,
/// duration): those whose file name names an element of the package.
pub open spec fn kept_clips(clips: Seq<ExportClip>, els: Seq<ExportElement>) -> Seq<(int, i64, i64)>
    decreases clips.len(),
{
    if clips.len() == 0 {
        Seq::empty()
    } else {
        let rest = kept_clips(clips.drop_last(), els);
        let c = clips.last();
        match last_element_named(els, c.element_file_name@) {
            Some(k) => rest.push((k, c.start_time_ms, c.duration_ms)),
            None => rest,
        }
    }
}

/// A planned clip as (element position, start, duration).
pub open spec fn clip_triple(c: PlannedClip) -> (int, i64, i64) {
    (c.element_index as int, c.start_time_ms, c.duration_ms)
}

/// `x` imports the package track `t`, keeping the clips that `kept_clips`
/// keeps.
pub open spec fn track_planned(x: PlannedTrack, t: ExportTrack, els: Seq<ExportElement>) -> bool {
    &&& x.name@ == t.name@
    &&& x.order_index == t.order_index
    &&& x.clips@.map_values(|c: PlannedClip| clip_triple(c)) == kept_clips(t.clips@, els)
}

/// `x` imports the package timeline `t`, track by track.
pub open spec fn timeline_planned(
    x: Option<PlannedTimeline>,
    t: Option<ExportTimeline>,
    els: Seq<ExportElement>,
) -> bool {
    match (x, t) {
        (None, None) => true,
        (Some(x), Some(t)) => {
            &&& x.is_looping == t.is_looping
            &&& x.tracks@.len() == t.tracks@.len()
            &&& forall|i: int| 0 <= i < t.tracks@.len() ==> #[trigger] track_planned(x.tracks@[i], t.tracks@[i], els)
        },
        _ => false,
    }
}

/// `x` imports the package mood `m`.
pub open spec fn mood_planned(x: PlannedMood, m: ExportMood, els: Seq<ExportElement>) -> bool {
    &&& x.name@ == m.name@
    &&& x.description@ == m.description@
    &&& timeline_planned(x.timeline, m.timeline, els)
}

/// `x` imports the package element `e`, with its channel found by name among
/// `chs`.
pub open spec fn element_planned(x: PlannedElement, e: ExportElement, chs: Seq<ExportChannel>) -> bool {
    &&& x.file_name@ == e.file_name@
    &&& x.archive_path@ == e.archive_path@
    &&& match x.channel_index {
        Some(k) => channel_index_for(chs, e.channel_name) == Some(k as int),
        None => channel_index_for(chs, e.channel_name) is None,
    }
    &&& x.channel_type@ == e.channel_type@
    &&& x.volume_db_bits == e.volume_db_bits
}

/// `p` imports the package `m` next to the sound sets named `existing`.
pub open spec fn import_planned(p: ImportPlan, m: ExportManifest, existing: Seq<String>) -> bool {
    &&& is_resolved_name(p.sound_set_name@, m.soundset.name@, existing)
    &&& p.description@ == m.soundset.description@
    &&& p.channels@.len() == m.channels@.len()
    &&& forall|i: int| 0 <= i < m.channels@.len() ==> {
        &&& (#[trigger] p.channels@[i]).name@ == m.channels@[i].name@
        &&& p.channels@[i].icon@ == m.channels@[i].icon@
        &&& p.channels@[i].volume_bits == m.channels@[i].volume_bits
        &&& p.channels@[i].order_index == m.channels@[i].order_index
    }
    &&& p.elements@.len() == m.elements@.len()
    &&& forall|i: int| 0 <= i < m.elements@.len() ==> #[trigger] element_planned(p.elements@[i], m.elements@[i], m.channels@)
    &&& p.moods@.len() == m.moods@.len()
    &&& forall|i: int| 0 <= i < m.moods@.len() ==> #[trigger] mood_planned(p.moods@[i], m.moods@[i], m.elements@)
}

fn find_channel_named(chs: &Vec<ExportChannel>, name: &Option<String>) -> (r: Option<usize>)
    ensures
        match r {
            Some(k) => channel_index_for(chs@, *name) == Some(k as int),
            None => channel_index_for(chs@, *name) is None,
        },
{
    match name {
        None => None,
        Some(n) => {
            let mut found: Option<usize> = None;
            let mut i: usize = 0;
            while i < chs.len()
                invariant
                    i <= chs.len(),
                    match found {
                        Some(k) => k < i && last_channel_named(chs@.take(i as int), n@) == Some(k as int),
                        None => last_channel_named(chs@.take(i as int), n@) is None,
                    },
                decreases chs.len() - i,
            {
                assert(chs@.take(i + 1).drop_last() =~= chs@.take(i as int));
                if chs[i].name == *n {
                    found = Some(i);
                }
                i += 1;
            }
            assert(chs@.take(chs.len() as int) =~= chs@);
            found
        },
    }
}

fn find_element_named(els: &Vec<ExportElement>, name: &String) -> (r: Option<usize>)
    ensures
        match r {
            Some(k) => last_element_named(els@, name@) == Some(k as int),
            None => last_element_named(els@, name@) is None,
        },
{
    let mut found: Option<usize> = None;
    let mut i: usize = 0;
    while i < els.len()
        invariant
            i <= els.len(),
            match found {
                Some(k) => k < i && last_element_named(els@.take(i as int), name@) == Some(k as int),
                None => last_element_named(els@.take(i as int), name@) is None,
            },
        decreases els.len() - i,
    {
        assert(els@.take(i + 1).drop_last() =~= els@.take(i as int));
        if els[i].file_name == *name {
            found = Some(i);
        }
        i += 1;
    }
    assert(els@.take(els.len() as int) =~= els@);
    found
}

fn plan_track(t: &ExportTrack, els: &Vec<ExportElement>) -> (r: PlannedTrack)
    ensures
        track_planned(r, *t, els@),
{
    let mut clips: Vec<PlannedClip> = Vec::new();
    let mut i: usize = 0;
    while i < t.clips.len()
        invariant
            i <= t.clips.len(),
            clips@.map_values(|c: PlannedClip| clip_triple(c)) == kept_clips(t.clips@.take(i as int), els@),
        decreases t.clips.len() - i,
    {
        let c = &t.clips[i];
        let ghost before = clips@;
        assert(t.clips@.take(i + 1).drop_last() =~= t.clips@.take(i as int));
        assert(t.clips@.take(i + 1).last() == t.clips@[i as int]);
        match find_element_named(els, &c.element_file_name) {
            Some(k) => {
                clips.push(PlannedClip { element_index: k, start_time_ms: c.start_time_ms, duration_ms: c.duration_ms });
                assert(clips@.map_values(|c: PlannedClip| clip_triple(c)) =~= before.map_values(|c: PlannedClip| clip_triple(c)).push((k as int, c.start_time_ms, c.duration_ms)));
            },
            None => {},
        }
        i += 1;
    }
    assert(t.clips@.take(t.clips.len() as int) =~= t.clips@);
    PlannedTrack { name: t.name.clone(), order_index: t.order_index, clips }
}

fn plan_timeline(t: &Option<ExportTimeline>, els: &Vec<ExportElement>) -> (r: Option<PlannedTimeline>)
    ensures
        timeline_planned(r, *t, els@),
{
    match t {
        None => None,
        Some(t) => {
            let mut tracks: Vec<PlannedTrack> = Vec::new();
            let mut i: usize = 0;
            while i < t.tracks.len()
                invariant
                    i <= t.tracks.len(),
                    tracks@.len() == i,
                    forall|k: int| 0 <= k < i ==> #[trigger] track_planned(tracks@[k], t.tracks@[k], els@),
                decreases t.tracks.len() - i,
            {
                tracks.push(plan_track(&t.tracks[i], els));
                i += 1;
            }
            Some(PlannedTimeline { is_looping: t.is_looping, tracks })
        },
    }
}

/// Plans the import of the package `manifest` into a store holding sound
/// sets named `existing`. The manifest must pass validation and every
/// archive path must be safe; otherwise the import fails before any row or
/// file is written. The sound set gets the first free name; elements find
/// their channel by name, clips their element by file name (the last one
/// listed, where names repeat), and a clip whose file name names no element
/// is left out.
pub fn plan_import(manifest: &ExportManifest, existing: &Vec<String>) -> (r: Result<ImportPlan, PackageError>)
    ensures
        manifest_fault(*manifest) is Some ==> r == Err::<ImportPlan, PackageError>(manifest_fault(*manifest)->0),
        manifest_fault(*manifest) is None && path_fault_from(manifest.elements@, 0) is Some
            ==> r == Err::<ImportPlan, PackageError>(path_fault_from(manifest.elements@, 0)->0),
        manifest_fault(*manifest) is None && path_fault_from(manifest.elements@, 0) is None
            ==> r is Ok && import_planned(r->Ok_0, *manifest, existing@),
{
    match validate_manifest_for_packaging(manifest) {
        Err(e) => {
            return Err(e);
        },
        Ok(()) => {},
    }
    match validate_archive_paths(&manifest.elements) {
        Err(e) => {
            return Err(e);
        },
        Ok(()) => {},
    }
    let sound_set_name = resolve_sound_set_name(&manifest.soundset.name, existing);
    let mut channels: Vec<ExportChannel> = Vec::new();
    let mut i: usize = 0;
    while i < manifest.channels.len()
        invariant
            i <= manifest.channels.len(),
            channels@.len() == i,
            forall|k: int| 0 <= k < i ==> {
                &&& (#[trigger] channels@[k]).name@ == manifest.channels@[k].name@
                &&& channels@[k].icon@ == manifest.channels@[k].icon@
                &&& channels@[k].volume_bits == manifest.channels@[k].volume_bits
                &&& channels@[k].order_index == manifest.channels@[k].order_index
            },
        decreases manifest.channels.len() - i,
    {
        let c = &manifest.channels[i];
        channels.push(ExportChannel {
            name: c.name.clone(),
            icon: c.icon.clone(),
            volume_bits: c.volume_bits,
            order_index: c.order_index,
        });
        i += 1;
    }
    let mut elements: Vec<PlannedElement> = Vec::new();
    let mut i: usize = 0;
    while i < manifest.elements.len()
        invariant
            i <= manifest.elements.len(),
            elements@.len() == i,
            forall|k: int| 0 <= k < i ==> #[trigger] element_planned(elements@[k], manifest.elements@[k], manifest.channels@),
        decreases manifest.elements.len() - i,
    {
        let e = &manifest.elements[i];
        elements.push(PlannedElement {
            file_name: e.file_name.clone(),
            archive_path: e.archive_path.clone(),
            channel_index: find_channel_named(&manifest.channels, &e.channel_name),
            channel_type: e.channel_type.clone(),
            volume_db_bits: e.volume_db_bits,
        });
        i += 1;
    }
    let mut moods: Vec<PlannedMood> = Vec::new();
    let mut i: usize = 0;
    while i < manifest.moods.len()
        invariant
            i <= manifest.moods.len(),
            moods@.len() == i,
            forall|k: int| 0 <= k < i ==> #[trigger] mood_planned(moods@[k], manifest.moods@[k], manifest.elements@),
        decreases manifest.moods.len() - i,
    {
        let m = &manifest.moods[i];
        moods.push(PlannedMood {
            name: m.name.clone(),
            description: m.description.clone(),
            timeline: plan_timeline(&m.timeline, &manifest.elements),
        });
        i += 1;
    }
    Ok(ImportPlan {
        sound_set_name,
        description: manifest.soundset.description.clone(),
        channels,
        elements,
        moods,
    })
}

} // verus!
