//! Stream statistics reported by the voice bridge, as the store's callers
//! see them.
use vstd::prelude::*;

verus! {

/// The statistics as the bridge process reports them.
#[derive(Debug)]
pub struct SidecarTelemetry {
    pub connected: bool,
    pub guild_id: Option<String>,
    pub channel_id: Option<String>,
    pub chunks_sent: u64,
    pub chunks_dropped: u64,
    pub queue_depth: usize,
    pub queue_capacity: usize,
    pub underruns: u64,
    pub dropped_frames: u64,
    pub reconnect_attempts: u64,
    pub last_error: Option<String>,
}

/// The statistics handed to callers: the bridge's own, plus whether the
/// bridge answered (`bridge_ready`) and is connected (`bridge_connected`).
#[derive(Debug)]
pub struct DiscordStreamTelemetry {
    pub connected: bool,
    pub bridge_ready: bool,
    pub bridge_connected: bool,
    pub guild_id: Option<String>,
    pub channel_id: Option<String>,
    pub chunks_sent: u64,
    pub chunks_dropped: u64,
    pub queue_depth: usize,
    pub queue_capacity: usize,
    pub underruns: u64,
    pub dropped_frames: u64,
    pub reconnect_attempts: u64,
    pub last_error: Option<String>,
}

/// The caller's view of statistics that the bridge answered with: the bridge
/// is ready, and its connection state is the bridge's.
pub fn map_sidecar_telemetry(raw: SidecarTelemetry) -> (r: DiscordStreamTelemetry)
    ensures
        r.connected == raw.connected,
        r.bridge_ready,
        r.bridge_connected == raw.connected,
        r.guild_id == raw.guild_id,
        r.channel_id == raw.channel_id,
        r.chunks_sent == raw.chunks_sent,
        r.chunks_dropped == raw.chunks_dropped,
        r.queue_depth == raw.queue_depth,
        r.queue_capacity == raw.queue_capacity,
        r.underruns == raw.underruns,
        r.dropped_frames == raw.dropped_frames,
        r.reconnect_attempts == raw.reconnect_attempts,
        r.last_error == raw.last_error,
{
    DiscordStreamTelemetry {
        connected: raw.connected,
        bridge_ready: true,
        bridge_connected: raw.connected,
        guild_id: raw.guild_id,
        channel_id: raw.channel_id,
        chunks_sent: raw.chunks_sent,
        chunks_dropped: raw.chunks_dropped,
        queue_depth: raw.queue_depth,
        queue_capacity: raw.queue_capacity,
        underruns: raw.underruns,
        dropped_frames: raw.dropped_frames,
        reconnect_attempts: raw.reconnect_attempts,
        last_error: raw.last_error,
    }
}

} // verus!
