//! The settings of the server and their defaults.

use vstd::prelude::*;

verus! {

/// Settings of the audio engine.
#[derive(Debug, Clone)]
pub struct AudioConfig {
    pub enabled: bool,
    /// Input channels, 1 to 64.
    pub input_channels: usize,
    /// Output channels, 1 to 64.
    pub output_channels: usize,
    pub sample_rate: u32,
    /// Frames per buffer.
    pub buffer_size: usize,
}

/// Settings of the MIDI interface.
#[derive(Debug, Clone)]
pub struct MidiConfig {
    pub enabled: bool,
    /// Connect to controllers as they are found.
    pub auto_connect: bool,
    pub mapping_file: Option<String>,
}

/// Settings of the control interface.
#[derive(Debug, Clone)]
pub struct ApiConfig {
    pub host: String,
    pub port: u16,
    pub cors_enabled: bool,
    pub max_clients: usize,
}

/// Settings of the audio network.
#[derive(Debug, Clone)]
pub struct NetworkAudioConfig {
    /// `aes67` or `dante`.
    pub backend: String,
    pub interface: Option<String>,
    pub multicast_groups: Vec<String>,
}

/// All settings of the server.
#[derive(Debug, Clone)]
pub struct ServerConfig {
    pub audio: AudioConfig,
    pub midi: MidiConfig,
    pub api: ApiConfig,
    pub network_audio: NetworkAudioConfig,
}

/// Channels each way unless configured otherwise.
pub fn default_channels() -> (n: usize)
    ensures
        n == 32,
{
    32
}

pub fn default_sample_rate() -> (r: u32)
    ensures
        r == 48000,
{
    48000
}

pub fn default_buffer_size() -> (n: usize)
    ensures
        n == 256,
{
    256
}

pub fn default_true() -> (b: bool)
    ensures
        b,
{
    true
}

/// The control interface listens on every address unless configured
/// otherwise.
pub fn default_host() -> (h: String)
    ensures
        h@ == "0.0.0.0"@,
{
    "0.0.0.0".to_owned()
}

pub fn default_port() -> (p: u16)
    ensures
        p == 8080,
{
    8080
}

pub fn default_max_clients() -> (n: usize)
    ensures
        n == 10,
{
    10
}

pub fn default_backend() -> (b: String)
    ensures
        b@ == "aes67"@,
{
    "aes67".to_owned()
}

impl Default for ServerConfig {
    /// Everything enabled: 32 channels each way at 48 kHz in buffers of
    /// 256 frames, the control interface on 0.0.0.0:8080 for ten clients,
    /// AES67 on the network.
    fn default() -> (c: Self)
        ensures
            c.audio.enabled,
            c.audio.input_channels == 32,
            c.audio.output_channels == 32,
            c.audio.sample_rate == 48000,
            c.audio.buffer_size == 256,
            c.midi.enabled,
            c.midi.auto_connect,
            c.midi.mapping_file.is_none(),
            c.api.host@ == "0.0.0.0"@,
            c.api.port == 8080,
            c.api.cors_enabled,
            c.api.max_clients == 10,
            c.network_audio.backend@ == "aes67"@,
            c.network_audio.interface.is_none(),
            c.network_audio.multicast_groups@.len() == 0,
    {
        ServerConfig {
            audio: AudioConfig {
                enabled: default_true(),
                input_channels: default_channels(),
                output_channels: default_channels(),
                sample_rate: default_sample_rate(),
                buffer_size: default_buffer_size(),
            },
            midi: MidiConfig { enabled: default_true(), auto_connect: default_true(), mapping_file: None },
            api: ApiConfig {
                host: default_host(),
                port: default_port(),
                cors_enabled: default_true(),
                max_clients: default_max_clients(),
            },
            network_audio: NetworkAudioConfig {
                backend: default_backend(),
                interface: None,
                multicast_groups: Vec::new(),
            },
        }
    }
}

} // verus!
