//! The store's entities, as the repository hands them out.
//!
//! Gains and decibel levels are stored as the IEEE-754 bit pattern of the
//! `f64` the caller gave (`f64::to_bits`): the store carries them unchanged
//! and never computes with them.
use vstd::prelude::*;

verus! {

/// A top-level project container.
#[derive(Debug)]
pub struct SoundSet {
    pub id: i64,
    pub name: String,
    pub description: String,
    pub created_at: String,
}

/// Application settings that the repository reads on each call.
#[derive(Debug)]
pub struct AppSettings {
    /// `"reference"` or `"copy"`.
    pub audio_file_strategy: String,
    pub library_path: String,
    pub output_device_id: String,
    pub discord_bot_token: String,
    pub discord_guild_id: String,
    pub discord_channel_id: String,
}

/// A named sub-scene of a sound set.
#[derive(Debug)]
pub struct Mood {
    pub id: i64,
    pub sound_set_id: i64,
    pub name: String,
    pub description: String,
    pub created_at: String,
}

/// A mixing channel of a sound set.
#[derive(Debug)]
pub struct AudioChannel {
    pub id: i64,
    pub sound_set_id: i64,
    pub name: String,
    pub icon: String,
    /// Bit pattern of the `f64` gain.
    pub volume_bits: u64,
    pub order_index: i64,
    pub created_at: String,
}

/// An audio file known to the store; `sound_set_id` is `None` for a global
/// one-shot.
#[derive(Debug)]
pub struct AudioElement {
    pub id: i64,
    pub sound_set_id: Option<i64>,
    pub channel_id: Option<i64>,
    pub file_path: String,
    pub file_name: String,
    pub channel_type: String,
    /// Bit pattern of the `f64` level in decibels.
    pub volume_db_bits: u64,
    pub created_at: String,
}

/// The composition of a mood; at most one per mood.
#[derive(Debug)]
pub struct Timeline {
    pub id: i64,
    pub mood_id: i64,
    pub name: String,
    pub order_index: i64,
    pub is_looping: bool,
    pub created_at: String,
}

/// A lane of a timeline.
#[derive(Debug)]
pub struct TimelineTrack {
    pub id: i64,
    pub timeline_id: i64,
    pub name: String,
    pub order_index: i64,
    pub is_looping: bool,
    pub created_at: String,
}

/// A named, ordered collection of audio elements; `sound_set_id` is `None`
/// for a global group.
#[derive(Debug)]
pub struct ElementGroup {
    pub id: i64,
    pub name: String,
    pub sound_set_id: Option<i64>,
    pub created_at: String,
}

/// One member of an element group.
#[derive(Debug, Clone, Copy, PartialEq, Eq, Structural)]
pub struct ElementGroupMember {
    pub id: i64,
    pub group_id: i64,
    pub audio_element_id: i64,
    pub order_index: i64,
}

/// A clip: an audio element or an element group placed on a track over
/// `[start_time_ms, start_time_ms + duration_ms)`.
#[derive(Debug, Clone, Copy, PartialEq, Eq, Structural)]
pub struct TimelineElement {
    pub id: i64,
    pub track_id: i64,
    pub audio_element_id: Option<i64>,
    pub element_group_id: Option<i64>,
    pub start_time_ms: i64,
    pub duration_ms: i64,
}

/// What a clip plays: exactly one audio element or one element group.
#[derive(Debug, Clone, Copy, PartialEq, Eq, Structural)]
pub enum ClipSource {
    Element(i64),
    Group(i64),
}

impl ClipSource {
    /// The clip's `audio_element_id` column.
    pub fn audio_element_id(&self) -> (r: Option<i64>)
        ensures
            r == (match *self {
                ClipSource::Element(id) => Some(id),
                ClipSource::Group(_) => None::<i64>,
            }),
    {
        match *self {
            ClipSource::Element(id) => Some(id),
            ClipSource::Group(_) => None,
        }
    }

    /// The clip's `element_group_id` column.
    pub fn element_group_id(&self) -> (r: Option<i64>)
        ensures
            r == (match *self {
                ClipSource::Element(_) => None::<i64>,
                ClipSource::Group(id) => Some(id),
            }),
    {
        match *self {
            ClipSource::Element(_) => None,
            ClipSource::Group(id) => Some(id),
        }
    }
}

} // verus!
