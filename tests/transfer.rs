use immersive_scene::model::{AudioChannel, AudioElement, TimelineElement};
use immersive_scene::package::{
    ExportChannel, ExportClip, ExportElement, ExportManifest, ExportMood, ExportSoundSet,
    ExportTimeline, ExportTrack, PackageError, PathFault,
};
use immersive_scene::export::{
    export_bundle, MoodSnapshot, SoundSetSnapshot, TimelineSnapshot, TrackSnapshot,
};
use immersive_scene::import_plan::plan_import;
use immersive_scene::naming::{library_file_candidate, resolve_sound_set_name};

fn names(v: &[&str]) -> Vec<String> {
    v.iter().map(|s| s.to_string()).collect()
}

fn package(version: i32, name: &str) -> ExportManifest {
    ExportManifest {
        format_version: version,
        soundset: ExportSoundSet { name: name.to_string(), description: "d".to_string() },
        channels: vec![
            ExportChannel { name: "Music".to_string(), icon: "music".to_string(), volume_bits: 1.0f64.to_bits(), order_index: 0 },
            ExportChannel { name: "Ambient".to_string(), icon: "ambient".to_string(), volume_bits: 0.5f64.to_bits(), order_index: 1 },
        ],
        elements: vec![
            ExportElement {
                file_name: "rain.wav".to_string(),
                archive_path: "audio/rain.wav".to_string(),
                channel_name: Some("Ambient".to_string()),
                channel_type: "ambient".to_string(),
                volume_db_bits: (-3.0f64).to_bits(),
            },
            ExportElement {
                file_name: "wind.wav".to_string(),
                archive_path: "audio/wind.wav".to_string(),
                channel_name: Some("Nowhere".to_string()),
                channel_type: "ambient".to_string(),
                volume_db_bits: 0.0f64.to_bits(),
            },
        ],
        moods: vec![ExportMood {
            name: "Storm".to_string(),
            description: String::new(),
            timeline: Some(ExportTimeline {
                is_looping: true,
                tracks: vec![ExportTrack {
                    name: "Track 1".to_string(),
                    order_index: 0,
                    clips: vec![
                        ExportClip { element_file_name: "wind.wav".to_string(), start_time_ms: 0, duration_ms: 500 },
                        ExportClip { element_file_name: "gone.wav".to_string(), start_time_ms: 500, duration_ms: 500 },
                        ExportClip { element_file_name: "rain.wav".to_string(), start_time_ms: 1000, duration_ms: 250 },
                    ],
                }],
            }),
        }],
    }
}

#[test]
fn import_names_get_numbered_suffixes() {
    assert_eq!(resolve_sound_set_name(&"X".to_string(), &names(&[])), "X");
    assert_eq!(resolve_sound_set_name(&"X".to_string(), &names(&["X"])), "X (1)");
    assert_eq!(resolve_sound_set_name(&"X".to_string(), &names(&["X", "X (1)", "Y"])), "X (2)");
    assert_eq!(resolve_sound_set_name(&"X".to_string(), &names(&["X (1)"])), "X");
}

#[test]
fn second_import_of_same_name_is_suffixed() {
    let mut existing = names(&["Other"]);
    let first = plan_import(&package(1, "Forest"), &existing).unwrap();
    assert_eq!(first.sound_set_name, "Forest");
    existing.push(first.sound_set_name.clone());
    let second = plan_import(&package(1, "Forest"), &existing).unwrap();
    assert_eq!(second.sound_set_name, "Forest (1)");
}

#[test]
fn unsupported_version_fails_before_anything_is_planned() {
    assert!(matches!(
        plan_import(&package(2, "Forest"), &Vec::new()),
        Err(PackageError::UnsupportedFormatVersion(2))
    ));
    assert!(matches!(
        plan_import(&package(0, "Forest"), &Vec::new()),
        Err(PackageError::UnsupportedFormatVersion(0))
    ));
}

#[test]
fn import_rejects_unsafe_archive_path() {
    let mut m = package(1, "Forest");
    m.elements[1].archive_path = "audio/../../wind.wav".to_string();
    assert!(matches!(
        plan_import(&m, &Vec::new()),
        Err(PackageError::UnsafeArchivePath(1, PathFault::ParentSegment))
    ));
}

#[test]
fn import_resolves_references_and_drops_unknown_clips() {
    let plan = plan_import(&package(1, "Forest"), &Vec::new()).unwrap();
    assert_eq!(plan.channels.len(), 2);
    assert_eq!(plan.elements[0].channel_index, Some(1));
    assert_eq!(plan.elements[1].channel_index, None);
    let timeline = plan.moods[0].timeline.as_ref().unwrap();
    assert!(timeline.is_looping);
    let clips = &timeline.tracks[0].clips;
    assert_eq!(clips.len(), 2);
    assert_eq!((clips[0].element_index, clips[0].start_time_ms, clips[0].duration_ms), (1, 0, 500));
    assert_eq!((clips[1].element_index, clips[1].start_time_ms, clips[1].duration_ms), (0, 1000, 250));
}

fn snapshot() -> SoundSetSnapshot {
    let channel = |id: i64, name: &str, volume: f64, order: i64| AudioChannel {
        id,
        sound_set_id: 1,
        name: name.to_string(),
        icon: name.to_lowercase(),
        volume_bits: volume.to_bits(),
        order_index: order,
        created_at: String::new(),
    };
    let element = |id: i64, channel_id: Option<i64>, file: &str| AudioElement {
        id,
        sound_set_id: Some(1),
        channel_id,
        file_path: format!("/music/{}", file),
        file_name: file.to_string(),
        channel_type: "ambient".to_string(),
        volume_db_bits: (-1.5f64).to_bits(),
        created_at: String::new(),
    };
    let clip = |id: i64, element: Option<i64>, start: i64, duration: i64| TimelineElement {
        id,
        track_id: 30,
        audio_element_id: element,
        element_group_id: None,
        start_time_ms: start,
        duration_ms: duration,
    };
    SoundSetSnapshot {
        name: "Forest Set".to_string(),
        description: "Nature".to_string(),
        channels: vec![channel(11, "Music", 1.0, 0), channel(12, "Ambient", 0.75, 1)],
        elements: vec![element(21, Some(12), "rain.wav"), element(22, None, "wind.wav"), element(23, Some(99), "owl.wav")],
        moods: vec![
            MoodSnapshot {
                name: "Night".to_string(),
                description: "Dark".to_string(),
                timeline: Some(TimelineSnapshot {
                    is_looping: false,
                    tracks: vec![TrackSnapshot {
                        name: "Track 1".to_string(),
                        order_index: 0,
                        clips: vec![clip(1, Some(22), 0, 1000), clip(2, Some(21), 1000, 400)],
                    }],
                }),
            },
            MoodSnapshot { name: "Calm".to_string(), description: String::new(), timeline: None },
        ],
    }
}

#[test]
fn export_builds_manifest_and_file_list() {
    let bundle = export_bundle(&snapshot()).unwrap();
    let m = &bundle.manifest;
    assert_eq!(m.format_version, 1);
    assert_eq!(m.soundset.name, "Forest Set");
    assert_eq!(m.channels.len(), 2);
    assert_eq!(m.elements[0].archive_path, "audio/rain.wav");
    assert_eq!(m.elements[0].channel_name.as_deref(), Some("Ambient"));
    assert_eq!(m.elements[1].channel_name, None);
    assert_eq!(m.elements[2].channel_name, None);
    assert_eq!(bundle.files[1].source_path, "/music/wind.wav");
    assert_eq!(bundle.files[1].archive_path, "audio/wind.wav");
    let clips = &m.moods[0].timeline.as_ref().unwrap().tracks[0].clips;
    assert_eq!(clips[0].element_file_name, "wind.wav");
    assert_eq!(clips[1].element_file_name, "rain.wav");
    assert!(m.moods[1].timeline.is_none());
}

#[test]
fn export_gives_unknown_elements_an_empty_file_name() {
    let mut s = snapshot();
    if let Some(t) = s.moods[0].timeline.as_mut() {
        t.tracks[0].clips[0].audio_element_id = Some(500);
        t.tracks[0].clips[1].audio_element_id = None;
        t.tracks[0].clips[1].element_group_id = Some(3);
    }
    let bundle = export_bundle(&s).unwrap();
    let clips = &bundle.manifest.moods[0].timeline.as_ref().unwrap().tracks[0].clips;
    assert_eq!(clips[0].element_file_name, "");
    assert_eq!(clips[1].element_file_name, "");
}

#[test]
fn export_rejects_file_names_that_escape() {
    let mut s = snapshot();
    s.elements[1].file_name = "../../wind.wav".to_string();
    assert!(matches!(export_bundle(&s), Err(PackageError::UnsafeArchivePath(1, PathFault::ParentSegment))));
}

#[test]
fn export_then_import_reproduces_the_sound_set() {
    let s = snapshot();
    let bundle = export_bundle(&s).unwrap();
    let plan = plan_import(&bundle.manifest, &Vec::new()).unwrap();
    assert_eq!(plan.sound_set_name, s.name);
    for (p, c) in plan.channels.iter().zip(s.channels.iter()) {
        assert_eq!(p.name, c.name);
        assert_eq!(p.volume_bits, c.volume_bits);
    }
    assert_eq!(plan.elements.len(), s.elements.len());
    assert_eq!(plan.elements[0].file_name, "rain.wav");
    assert_eq!(plan.elements[0].channel_index.map(|k| plan.channels[k].name.clone()), Some("Ambient".to_string()));
    assert_eq!(plan.elements[1].channel_index, None);
    let clips = &plan.moods[0].timeline.as_ref().unwrap().tracks[0].clips;
    assert_eq!(clips.len(), 2);
    assert_eq!(plan.elements[clips[0].element_index].file_name, "wind.wav");
    assert_eq!((clips[0].start_time_ms, clips[0].duration_ms), (0, 1000));
    assert_eq!(plan.elements[clips[1].element_index].file_name, "rain.wav");
    assert_eq!((clips[1].start_time_ms, clips[1].duration_ms), (1000, 400));
}

#[test]
fn library_collisions_suffix_the_stem() {
    assert_eq!(library_file_candidate("rain.wav", 0), "rain.wav");
    assert_eq!(library_file_candidate("rain.wav", 1), "rain-1.wav");
    assert_eq!(library_file_candidate("rain.wav", 12), "rain-12.wav");
    assert_eq!(library_file_candidate("a.tar.gz", 2), "a.tar-2.gz");
    assert_eq!(library_file_candidate("noext", 2), "noext-2.");
    assert_eq!(library_file_candidate(".hidden", 1), ".hidden-1.");
    assert_eq!(library_file_candidate("sub/dir.x/file.ogg", 3), "file-3.ogg");
}
