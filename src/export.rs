//! Export of a stored sound set into a package: the manifest that names
//! channels and elements by name instead of by id, and the files to archive.
use vstd::prelude::*;
use crate::model::{AudioChannel, AudioElement, TimelineElement};
use crate::package::{
    archive_path_fault_from, archive_paths, validate_archive_paths, ExportChannel, ExportClip,
    ExportElement, ExportManifest, ExportMood, ExportSoundSet, ExportTimeline, ExportTrack,
    PackageError, FORMAT_VERSION,
};

verus! {

/// A track of a sound set as stored, with its clips.
#[derive(Debug)]
pub struct TrackSnapshot {
    pub name: String,
    pub order_index: i64,
    pub clips: Vec<TimelineElement>,
}

/// A timeline as stored, with its tracks in order.
#[derive(Debug)]
pub struct TimelineSnapshot {
    pub is_looping: bool,
    pub tracks: Vec<TrackSnapshot>,
}

/// A mood as stored, with its timeline if it has one.
#[derive(Debug)]
pub struct MoodSnapshot {
    pub name: String,
    pub description: String,
    pub timeline: Option<TimelineSnapshot>,
}

/// Everything stored under one sound set that a package carries.
#[derive(Debug)]
pub struct SoundSetSnapshot {
    pub name: String,
    pub description: String,
    pub channels: Vec<AudioChannel>,
    pub elements: Vec<AudioElement>,
    pub moods: Vec<MoodSnapshot>,
}

/// A file to put into an archive: read from `source_path`, stored at
/// `archive_path`.
#[derive(Debug)]
pub struct BundleFile {
    pub source_path: String,
    pub archive_path: String,
}

/// A package ready to be written: its manifest and its files, in element
/// order.
#[derive(Debug)]
pub struct ExportBundle {
    pub manifest: ExportManifest,
    pub files: Vec<BundleFile>,
}

/// The text of an optional string.
pub open spec fn opt_text(o: Option<String>) -> Option<Seq<char>> {
    match o {
        Some(s) => Some(s@),
        None => None,
    }
}

/// The position of the last channel of `chs` with id `id`.
pub open spec fn last_channel_with_id(chs: Seq<AudioChannel>, id: i64) -> Option<int>
    decreases chs.len(),
{
    if chs.len() == 0 {
        None
    } else if chs.last().id == id {
        Some(chs.len() - 1)
    } else {
        last_channel_with_id(chs.drop_last(), id)
    }
}

/// The name of the channel `id` among `chs`, if it is one of them.
pub open spec fn channel_name_for(chs: Seq<AudioChannel>, id: Option<i64>) -> Option<Seq<char>> {
    match id {
        None => None,
        Some(x) => match last_channel_with_id(chs, x) {
            Some(k) => Some(chs[k].name@),
            None => None,
        },
    }
}

/// The position of the last element of `els` with id `id`.
pub open spec fn last_element_with_id(els: Seq<AudioElement>, id: i64) -> Option<int>
    decreases els.len(),
{
    if els.len() == 0 {
        None
    } else if els.last().id == id {
        Some(els.len() - 1)
    } else {
        last_element_with_id(els.drop_last(), id)
    }
}

/// The file name by which a clip refers to its element: empty when the clip
/// plays no element of `els`.
pub open spec fn clip_file_name(els: Seq<AudioElement>, id: Option<i64>) -> Seq<char> {
    match id {
        None => Seq::empty(),
        Some(x) => match last_element_with_id(els, x) {
            Some(k) => els[k].file_name@,
            None => Seq::empty(),
        },
    }
}

/// Where an element's file is stored in an archive.
pub open spec fn archive_path_for(file_name: Seq<char>) -> Seq<char> {
    "audio/"@ + file_name
}

/// `x` is the package entry of the stored channel `c`.
pub open spec fn channel_exported(x: ExportChannel, c: AudioChannel) -> bool {
    &&& x.name@ == c.name@
    &&& x.icon@ == c.icon@
    &&& x.volume_bits == c.volume_bits
    &&& x.order_index == c.order_index
}

/// `x` is the package entry of the stored element `e`, whose channel is
/// looked up among `chs`.
pub open spec fn element_exported(x: ExportElement, e: AudioElement, chs: Seq<AudioChannel>) -> bool {
    &&& x.file_name@ == e.file_name@
    &&& x.archive_path@ == archive_path_for(e.file_name@)
    &&& opt_text(x.channel_name) == channel_name_for(chs, e.channel_id)
    &&& x.channel_type@ == e.channel_type@
    &&& x.volume_db_bits == e.volume_db_bits
}

/// `x` is the package entry of the stored clip `c`, whose element is looked
/// up among `els`.
pub open spec fn clip_exported(x: ExportClip, c: TimelineElement, els: Seq<AudioElement>) -> bool {
    &&& x.element_file_name@ == clip_file_name(els, c.audio_element_id)
    &&& x.start_time_ms == c.start_time_ms
    &&& x.duration_ms == c.duration_ms
}

/// `x` is the package entry of the stored track `t`, clip by clip.
pub open spec fn track_exported(x: ExportTrack, t: TrackSnapshot, els: Seq<AudioElement>) -> bool {
    &&& x.name@ == t.name@
    &&& x.order_index == t.order_index
    &&& x.clips@.len() == t.clips@.len()
    &&& forall|i: int| 0 <= i < t.clips@.len() ==> #[trigger] clip_exported(x.clips@[i], t.clips@[i], els)
}

/// `x` is the package entry of the stored timeline `t`, if the mood has one.
pub open spec fn timeline_exported(
    x: Option<ExportTimeline>,
    t: Option<TimelineSnapshot>,
    els: Seq<AudioElement>,
) -> bool {
    match (x, t) {
        (None, None) => true,
        (Some(x), Some(t)) => {
            &&& x.is_looping == t.is_looping
            &&& x.tracks@.len() == t.tracks@.len()
            &&& forall|i: int| 0 <= i < t.tracks@.len() ==> #[trigger] track_exported(x.tracks@[i], t.tracks@[i], els)
        },
        _ => false,
    }
}

/// `x` is the package entry of the stored mood `m`.
pub open spec fn mood_exported(x: ExportMood, m: MoodSnapshot, els: Seq<AudioElement>) -> bool {
    &&& x.name@ == m.name@
    &&& x.description@ == m.description@
    &&& timeline_exported(x.timeline, m.timeline, els)
}

/// `m` is the manifest of the stored sound set `s`: channels by name,
/// elements with their archive paths and channel names, moods with their
/// timelines, and clips naming their elements by file name.
pub open spec fn manifest_exported(m: ExportManifest, s: SoundSetSnapshot) -> bool {
    &&& m.format_version == FORMAT_VERSION
    &&& m.soundset.name@ == s.name@
    &&& m.soundset.description@ == s.description@
    &&& m.channels@.len() == s.channels@.len()
    &&& forall|i: int| 0 <= i < s.channels@.len() ==> #[trigger] channel_exported(m.channels@[i], s.channels@[i])
    &&& m.elements@.len() == s.elements@.len()
    &&& forall|i: int| 0 <= i < s.elements@.len() ==> #[trigger] element_exported(m.elements@[i], s.elements@[i], s.channels@)
    &&& m.moods@.len() == s.moods@.len()
    &&& forall|i: int| 0 <= i < s.moods@.len() ==> #[trigger] mood_exported(m.moods@[i], s.moods@[i], s.elements@)
}

fn channel_name_of(chs: &Vec<AudioChannel>, id: Option<i64>) -> (r: Option<String>)
    ensures
        opt_text(r) == channel_name_for(chs@, id),
{
    match id {
        None => None,
        Some(x) => {
            let mut found: Option<usize> = None;
            let mut i: usize = 0;
            while i < chs.len()
                invariant
                    i <= chs.len(),
                    match found {
                        Some(k) => k < i && last_channel_with_id(chs@.take(i as int), x) == Some(k as int),
                        None => last_channel_with_id(chs@.take(i as int), x) is None,
                    },
                decreases chs.len() - i,
            {
                assert(chs@.take(i + 1).drop_last() =~= chs@.take(i as int));
                if chs[i].id == x {
                    found = Some(i);
                }
                i += 1;
            }
            assert(chs@.take(chs.len() as int) =~= chs@);
            match found {
                Some(k) => Some(chs[k].name.clone()),
                None => None,
            }
        },
    }
}

fn clip_file_name_of(els: &Vec<AudioElement>, id: Option<i64>) -> (r: String)
    ensures
        r@ == clip_file_name(els@, id),
{
    match id {
        None => String::new(),
        Some(x) => {
            let mut found: Option<usize> = None;
            let mut i: usize = 0;
            while i < els.len()
                invariant
                    i <= els.len(),
                    match found {
                        Some(k) => k < i && last_element_with_id(els@.take(i as int), x) == Some(k as int),
                        None => last_element_with_id(els@.take(i as int), x) is None,
                    },
                decreases els.len() - i,
            {
                assert(els@.take(i + 1).drop_last() =~= els@.take(i as int));
                if els[i].id == x {
                    found = Some(i);
                }
                i += 1;
            }
            assert(els@.take(els.len() as int) =~= els@);
            match found {
                Some(k) => els[k].file_name.clone(),
                None => String::new(),
            }
        },
    }
}

fn export_track(t: &TrackSnapshot, els: &Vec<AudioElement>) -> (r: ExportTrack)
    ensures
        track_exported(r, *t, els@),
{
    let mut clips: Vec<ExportClip> = Vec::new();
    let mut i: usize = 0;
    while i < t.clips.len()
        invariant
            i <= t.clips.len(),
            clips@.len() == i,
            forall|k: int| 0 <= k < i ==> #[trigger] clip_exported(clips@[k], t.clips@[k], els@),
        decreases t.clips.len() - i,
    {
        let c = t.clips[i];
        clips.push(ExportClip {
            element_file_name: clip_file_name_of(els, c.audio_element_id),
            start_time_ms: c.start_time_ms,
            duration_ms: c.duration_ms,
        });
        i += 1;
    }
    ExportTrack { name: t.name.clone(), order_index: t.order_index, clips }
}

fn export_timeline(t: &Option<TimelineSnapshot>, els: &Vec<AudioElement>) -> (r: Option<ExportTimeline>)
    ensures
        timeline_exported(r, *t, els@),
{
    match t {
        None => None,
        Some(t) => {
            let mut tracks: Vec<ExportTrack> = Vec::new();
            let mut i: usize = 0;
            while i < t.tracks.len()
                invariant
                    i <= t.tracks.len(),
                    tracks@.len() == i,
                    forall|k: int| 0 <= k < i ==> #[trigger] track_exported(tracks@[k], t.tracks@[k], els@),
                decreases t.tracks.len() - i,
            {
                tracks.push(export_track(&t.tracks[i], els));
                i += 1;
            }
            Some(ExportTimeline { is_looping: t.is_looping, tracks })
        },
    }
}

/// Builds the package of a stored sound set: its manifest, and for each
/// element the file to store at `audio/<file name>`. Fails, before anything
/// is written, when an archive path would be unsafe.
pub fn export_bundle(s: &SoundSetSnapshot) -> (r: Result<ExportBundle, PackageError>)
    ensures
        r is Ok ==> manifest_exported(r->Ok_0.manifest, *s),
        r is Ok ==> r->Ok_0.files@.len() == s.elements@.len() && forall|i: int| 0 <= i < s.elements@.len() ==> {
            &&& (#[trigger] r->Ok_0.files@[i]).source_path@ == s.elements@[i].file_path@
            &&& r->Ok_0.files@[i].archive_path@ == archive_path_for(s.elements@[i].file_name@)
        },
        r is Ok <==> archive_path_fault_from(
            Seq::new(s.elements@.len(), |i: int| archive_path_for(s.elements@[i].file_name@)),
            0,
        ) is None,
        r is Err ==> r == Err::<ExportBundle, PackageError>(archive_path_fault_from(
            Seq::new(s.elements@.len(), |i: int| archive_path_for(s.elements@[i].file_name@)),
            0,
        )->0),
{
    let mut channels: Vec<ExportChannel> = Vec::new();
    let mut i: usize = 0;
    while i < s.channels.len()
        invariant
            i <= s.channels.len(),
            channels@.len() == i,
            forall|k: int| 0 <= k < i ==> #[trigger] channel_exported(channels@[k], s.channels@[k]),
        decreases s.channels.len() - i,
    {
        let c = &s.channels[i];
        channels.push(ExportChannel {
            name: c.name.clone(),
            icon: c.icon.clone(),
            volume_bits: c.volume_bits,
            order_index: c.order_index,
        });
        i += 1;
    }
    let mut elements: Vec<ExportElement> = Vec::new();
    let mut files: Vec<BundleFile> = Vec::new();
    let mut i: usize = 0;
    while i < s.elements.len()
        invariant
            i <= s.elements.len(),
            elements@.len() == i,
            files@.len() == i,
            forall|k: int| 0 <= k < i ==> #[trigger] element_exported(elements@[k], s.elements@[k], s.channels@),
            forall|k: int| 0 <= k < i ==> {
                &&& (#[trigger] files@[k]).source_path@ == s.elements@[k].file_path@
                &&& files@[k].archive_path@ == archive_path_for(s.elements@[k].file_name@)
            },
        decreases s.elements.len() - i,
    {
        let e = &s.elements[i];
        let mut archive_path = String::from_str("audio/");
        archive_path.append(e.file_name.as_str());
        files.push(BundleFile { source_path: e.file_path.clone(), archive_path: archive_path.clone() });
        elements.push(ExportElement {
            file_name: e.file_name.clone(),
            archive_path,
            channel_name: channel_name_of(&s.channels, e.channel_id),
            channel_type: e.channel_type.clone(),
            volume_db_bits: e.volume_db_bits,
        });
        i += 1;
    }
    let mut moods: Vec<ExportMood> = Vec::new();
    let mut i: usize = 0;
    while i < s.moods.len()
        invariant
            i <= s.moods.len(),
            moods@.len() == i,
            forall|k: int| 0 <= k < i ==> #[trigger] mood_exported(moods@[k], s.moods@[k], s.elements@),
        decreases s.moods.len() - i,
    {
        let m = &s.moods[i];
        moods.push(ExportMood {
            name: m.name.clone(),
            description: m.description.clone(),
            timeline: export_timeline(&m.timeline, &s.elements),
        });
        i += 1;
    }
    let manifest = ExportManifest {
        format_version: FORMAT_VERSION,
        soundset: ExportSoundSet { name: s.name.clone(), description: s.description.clone() },
        channels,
        elements,
        moods,
    };
    proof {
        let ps = Seq::new(s.elements@.len(), |i: int| archive_path_for(s.elements@[i].file_name@));
        assert forall|k: int| 0 <= k < ps.len() implies archive_paths(manifest.elements@)[k] == ps[k] by {
            assert(element_exported(manifest.elements@[k], s.elements@[k], s.channels@));
        }
        assert(archive_paths(manifest.elements@) =~= ps);
    }
    match validate_archive_paths(&manifest.elements) {
        Err(e) => Err(e),
        Ok(()) => Ok(ExportBundle { manifest, files }),
    }
}

} // verus!
