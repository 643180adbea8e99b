use immersive_scene::model::{AppSettings, Timeline};
use immersive_scene::repository::{
    default_channels, file_strategy, next_order_index, plan_timeline_creation,
    resolve_app_settings, uses_configured_library, FileStrategy, StoreError, TimelineCreation,
    UNIT_GAIN_BITS,
};
use immersive_scene::telemetry::{map_sidecar_telemetry, SidecarTelemetry};

#[test]
fn first_timeline_of_a_mood_is_created_with_a_track() {
    match plan_timeline_creation(Vec::new(), 4, "Main".to_string()) {
        TimelineCreation::Create { mood_id, name, first_track_name } => {
            assert_eq!(mood_id, 4);
            assert_eq!(name, "Main");
            assert_eq!(first_track_name, "Track 1");
        }
        TimelineCreation::Existing(_) => panic!("no timeline existed"),
    }
}

#[test]
fn second_timeline_request_returns_existing_id() {
    let existing = Timeline {
        id: 42,
        mood_id: 4,
        name: "Main".to_string(),
        order_index: 0,
        is_looping: true,
        created_at: "2024-01-01".to_string(),
    };
    match plan_timeline_creation(vec![existing], 4, "Other".to_string()) {
        TimelineCreation::Existing(t) => {
            assert_eq!(t.id, 42);
            assert!(t.is_looping);
        }
        TimelineCreation::Create { .. } => panic!("a duplicate timeline was planned"),
    }
}

#[test]
fn order_index_follows_the_largest() {
    assert_eq!(next_order_index(&vec![]), Ok(0));
    assert_eq!(next_order_index(&vec![0, 3, 1]), Ok(4));
    assert_eq!(next_order_index(&vec![-5]), Ok(-4));
    assert_eq!(next_order_index(&vec![1, i64::MAX]), Err(StoreError::OrderIndexExhausted));
}

#[test]
fn default_channels_only_for_empty_sets() {
    let d = default_channels(0);
    let got: Vec<(&str, &str, i64)> = d.iter().map(|c| (c.name.as_str(), c.icon.as_str(), c.order_index)).collect();
    assert_eq!(got, vec![("Music", "music", 0), ("Ambient", "ambient", 1), ("Sound Effects", "sfx", 2)]);
    assert!(d.iter().all(|c| f64::from_bits(c.volume_bits) == 1.0));
    assert_eq!(UNIT_GAIN_BITS, 1.0f64.to_bits());
    assert!(default_channels(2).is_empty());
}

#[test]
fn file_strategy_setting() {
    assert_eq!(file_strategy(&"copy".to_string()), FileStrategy::Copy);
    assert_eq!(file_strategy(&"reference".to_string()), FileStrategy::Reference);
    assert_eq!(file_strategy(&"Copy".to_string()), FileStrategy::Reference);
    assert!(uses_configured_library("/data/lib"));
    assert!(!uses_configured_library("  "));
}

#[test]
fn settings_fall_back_to_defaults() {
    let d = resolve_app_settings(None, "/app/library/audio".to_string());
    assert_eq!(d.audio_file_strategy, "reference");
    assert_eq!(d.library_path, "/app/library/audio");
    assert_eq!(d.discord_bot_token, "");
    let parsed = AppSettings {
        audio_file_strategy: "copy".to_string(),
        library_path: " ".to_string(),
        output_device_id: "dev".to_string(),
        discord_bot_token: "t".to_string(),
        discord_guild_id: "g".to_string(),
        discord_channel_id: "c".to_string(),
    };
    let s = resolve_app_settings(Some(parsed), "/lib".to_string());
    assert_eq!(s.audio_file_strategy, "copy");
    assert_eq!(s.library_path, "/lib");
    assert_eq!(s.output_device_id, "dev");
}

#[test]
fn telemetry_is_marked_ready() {
    let raw = SidecarTelemetry {
        connected: true,
        guild_id: Some("g".to_string()),
        channel_id: None,
        chunks_sent: 5,
        chunks_dropped: 1,
        queue_depth: 2,
        queue_capacity: 8,
        underruns: 3,
        dropped_frames: 4,
        reconnect_attempts: 6,
        last_error: Some("e".to_string()),
    };
    let t = map_sidecar_telemetry(raw);
    assert!(t.bridge_ready);
    assert!(t.bridge_connected && t.connected);
    assert_eq!(t.guild_id.as_deref(), Some("g"));
    assert_eq!((t.chunks_sent, t.chunks_dropped, t.queue_depth, t.queue_capacity), (5, 1, 2, 8));
    assert_eq!((t.underruns, t.dropped_frames, t.reconnect_attempts), (3, 4, 6));
    assert_eq!(t.last_error.as_deref(), Some("e"));
}
