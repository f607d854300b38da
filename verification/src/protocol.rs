//! The messages that clients and server exchange, and the values they
//! carry. Levels, positions and gains are words that hold a
//! single-precision number (see [`crate::ieee`]).

use vstd::prelude::*;

verus! {

/// Index of an input strip, counted from zero.
pub type ChannelId = u32;

/// Snapshot of one input strip.
#[derive(Debug, Clone)]
pub struct ChannelState {
    pub id: ChannelId,
    pub name: String,
    /// Fader position from 0 to 1.25; 0.75 is unity.
    pub fader: u32,
    pub mute: bool,
    pub solo: bool,
    /// Position from -1 (left) to +1 (right).
    pub pan: u32,
    /// Trim in dB from -20 to +20.
    pub gain: u32,
    pub phase_invert: bool,
    pub color: String,
    /// Peak reading from 0 to 1.
    pub meter: u32,
}

/// The mathematical value of a [`ChannelState`].
pub struct StripView {
    pub id: ChannelId,
    pub name: Seq<char>,
    pub fader: u32,
    pub mute: bool,
    pub solo: bool,
    pub pan: u32,
    pub gain: u32,
    pub phase_invert: bool,
    pub color: Seq<char>,
    pub meter: u32,
}

impl View for ChannelState {
    type V = StripView;

    open spec fn view(&self) -> StripView {
        StripView {
            id: self.id,
            name: self.name@,
            fader: self.fader,
            mute: self.mute,
            solo: self.solo,
            pan: self.pan,
            gain: self.gain,
            phase_invert: self.phase_invert,
            color: self.color@,
            meter: self.meter,
        }
    }
}

/// Snapshot of the whole mixer.
#[derive(Debug, Clone)]
pub struct MixerState {
    pub channels: Vec<ChannelState>,
    /// Gain from input (first index) to output (second index).
    pub routing: Vec<Vec<u32>>,
    pub input_count: u32,
    pub output_count: u32,
}

/// Peak readings of all strips at one time.
#[derive(Debug, Clone)]
pub struct MeterData {
    pub peaks: Vec<u32>,
    /// Milliseconds since the epoch.
    pub timestamp: u64,
}

/// What a MIDI control moves.
#[derive(Debug, Clone, Copy, PartialEq, Eq, Hash, Structural)]
pub enum MidiTarget {
    Fader { channel: ChannelId },
    Mute { channel: ChannelId },
    Solo { channel: ChannelId },
    Pan { channel: ChannelId },
    Master,
}

/// A MIDI control bound to a mixer parameter.
#[derive(Debug, Clone)]
pub struct MidiMapping {
    pub device: String,
    /// MIDI channel, 0 to 15.
    pub channel: u8,
    /// Controller number, 0 to 127.
    pub cc: u8,
    pub target: MidiTarget,
}

/// A stored mixer state.
#[derive(Debug, Clone)]
pub struct Scene {
    pub id: u32,
    pub name: String,
    pub description: Option<String>,
    pub state: MixerState,
    pub created_at: u64,
    pub updated_at: u64,
}

/// What the server says of itself.
#[derive(Debug, Clone)]
pub struct ServerInfo {
    pub name: String,
    pub version: String,
    pub input_count: u32,
    pub output_count: u32,
    pub sample_rate: u32,
    pub client_count: u32,
    pub audio_backend: String,
}

/// What a client says of itself when it connects.
#[derive(Debug, Clone)]
pub struct ClientInfo {
    pub name: String,
    pub client_type: String,
    pub version: String,
    pub features: Vec<String>,
}

/// A stream on the network as clients see it.
#[derive(Debug, Clone)]
pub struct Aes67StreamInfo {
    pub id: String,
    pub name: String,
    pub channels: u8,
    pub sample_rate: u32,
    pub multicast_addr: String,
    pub port: u16,
    pub direction: String,
    pub origin: String,
}

/// State of the AES67 transport as clients see it.
#[derive(Debug, Clone)]
pub struct Aes67Status {
    pub enabled: bool,
    pub ptp_synchronized: bool,
    pub ptp_offset_ns: i64,
    pub our_stream: Option<Aes67StreamInfo>,
    pub subscribed_streams: Vec<String>,
}

/// A message from a client.
#[derive(Debug, Clone)]
pub enum ClientMessage {
    Hello(ClientInfo),
    Ping { timestamp: u64 },
    SetFader { channel: ChannelId, value: u32 },
    SetMute { channel: ChannelId, muted: bool },
    SetSolo { channel: ChannelId, solo: bool },
    SetPan { channel: ChannelId, value: u32 },
    SetGain { channel: ChannelId, value: u32 },
    SetChannelName { channel: ChannelId, name: String },
    SetChannelColor { channel: ChannelId, color: String },
    SetRouting { input: u32, output: u32, gain: u32 },
    SaveScene { name: String, description: Option<String> },
    RecallScene { id: u32 },
    DeleteScene { id: u32 },
    GetState,
    GetServerInfo,
    GetScenes,
    SubscribeMeters { enabled: bool, interval_ms: Option<u32> },
    GetAes67Status,
    GetAes67Streams,
    SubscribeAes67Stream { stream_id: String, start_channel: Option<u32> },
    UnsubscribeAes67Stream { stream_id: String },
    RefreshAes67,
}

/// A message from the server.
#[derive(Debug, Clone)]
pub enum ServerMessage {
    Welcome { server_info: ServerInfo, state: MixerState },
    Pong { timestamp: u64, server_time: u64 },
    Error { code: String, message: String },
    ChannelUpdated(ChannelState),
    RoutingUpdated { input: u32, output: u32, gain: u32 },
    State(MixerState),
    ServerInfo(ServerInfo),
    Meters(MeterData),
    Scenes(Vec<Scene>),
    SceneSaved { id: u32, name: String },
    SceneRecalled { id: u32, name: String },
    ClientConnected { name: String, client_type: String },
    ClientDisconnected { name: String },
    Aes67Status(Aes67Status),
    Aes67Streams(Vec<Aes67StreamInfo>),
    Aes67Subscribed { stream_id: String, stream_name: String, channels: u8, start_channel: u32 },
    Aes67Unsubscribed { stream_id: String },
    ClientCountChanged { count: u32 },
}

/// The envelope of an answer of the HTTP interface.
#[derive(Debug, Clone)]
pub struct ApiResponse<T> {
    pub success: bool,
    pub data: Option<T>,
    pub error: Option<String>,
}

impl<T> ApiResponse<T> {
    /// The answer that carries `data`.
    pub fn ok(data: T) -> (r: Self)
        ensures
            r.success,
            r.data == Some(data),
            r.error.is_none(),
    {
        ApiResponse { success: true, data: Some(data), error: None }
    }

    /// The answer that reports a failure.
    pub fn err(message: String) -> (r: Self)
        ensures
            !r.success,
            r.data.is_none(),
            r.error == Some(message),
    {
        ApiResponse { success: false, data: None, error: Some(message) }
    }
}

} // verus!
