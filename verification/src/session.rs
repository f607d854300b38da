//! What the server does with what a client sends: which reply a command
//! gets, whether the reply goes to every client, and what a session does
//! at each turn of its connection.
//!
//! The session loop itself belongs to the caller. It reads frames,
//! decodes them, asks the functions of this module what to do, and sends
//! what they return.

use crate::api::{channel_not_found, not_found_text};
use crate::engine::Aes67SubscribeResult;
use crate::ieee::{clamped, ONE, ZERO};
use crate::mixer::Mixer;
use crate::net::dotted;
use crate::protocol::{
    Aes67Status, Aes67StreamInfo, ChannelState, ClientMessage, MeterData, MixerState, ServerInfo,
    ServerMessage,
};
use crate::routing::{cells, with_cell};

use crate::sdp::{Aes67Stream, StreamDirection, StreamRecord};
use crate::text::{chars_of, decimal_digits, lossy_text, push_bytes, push_decimal, text_of};
use vstd::prelude::*;
use vstd::string::*;

verus! {

/// Sample rate that the server reports.
pub const REPORTED_SAMPLE_RATE: u32 = 48000;

/// Most messages that the broadcast hub holds for a client that lags.
pub const BROADCAST_CAPACITY: usize = 256;

/// Milliseconds between two meter messages to a client.
pub const METER_INTERVAL_MS: u64 = 50;

/// What the clock says, if there is one.
#[derive(Debug, Clone, Copy, PartialEq, Eq, Structural)]
pub struct PtpStatus {
    pub synchronized: bool,
    pub offset_ns: i64,
}

/// What a handler knows of the server besides the mixer.
pub struct ServerContext {
    /// Version of the server.
    pub version: String,
    /// Clients connected at present.
    pub client_count: u32,
    /// Server time in milliseconds since the epoch.
    pub now_ms: u64,
    /// State of the media clock; `None` without a clock.
    pub ptp: Option<PtpStatus>,
    /// The discovered streams; `None` without discovery.
    pub streams: Option<Vec<Aes67Stream>>,
    /// Whether the audio engine takes commands.
    pub engine_available: bool,
}

/// What is to be done with a message of a client.
pub enum Dispatch {
    /// Send `reply` to the client, if there is one, and to every client
    /// as well if `broadcast` is set.
    Reply { reply: Option<ServerMessage>, broadcast: bool },
    /// Ask the audio engine to subscribe, then answer with
    /// [`subscription_reply`].
    Subscribe { stream_id: String, start_channel: Option<u32> },
    /// Ask the audio engine to unsubscribe, then answer with
    /// [`unsubscription_reply`].
    Unsubscribe { stream_id: String },
}

/// Whether `m` is the error message with the given code and text.
pub open spec fn is_error(m: ServerMessage, code: Seq<char>, text: Seq<char>) -> bool {
    match m {
        ServerMessage::Error { code: c, message: t } => c@ == code && t@ == text,
        _ => false,
    }
}

/// Whether `m` reports the strip `strip` as updated.
pub open spec fn is_channel_update(m: ServerMessage, strip: crate::protocol::StripView) -> bool {
    match m {
        ServerMessage::ChannelUpdated(s) => s@ == strip,
        _ => false,
    }
}

/// Whether `s` is the snapshot of `mixer`.
pub open spec fn is_snapshot(s: MixerState, mixer: &Mixer) -> bool {
    &&& s.input_count == mixer.inputs()
    &&& s.output_count == mixer.outputs()
    &&& cells(s.routing@) == mixer.routes()
    &&& s.channels@.len() == mixer.inputs()
    &&& forall|i: int|
        0 <= i < s.channels@.len() ==> (#[trigger] s.channels@[i])@ == mixer.strips()[i].snapshot()
}

/// Whether `info` is what the server says of itself.
pub open spec fn is_server_info(info: ServerInfo, mixer: &Mixer, ctx: &ServerContext) -> bool {
    &&& info.name@ == "AudioMultiverse"@
    &&& info.version@ == ctx.version@
    &&& info.input_count == mixer.inputs()
    &&& info.output_count == mixer.outputs()
    &&& info.sample_rate == REPORTED_SAMPLE_RATE
    &&& info.client_count == ctx.client_count
    &&& info.audio_backend@ == "aes67"@
}

/// The word for a direction.
pub open spec fn direction_name(d: StreamDirection) -> Seq<char> {
    match d {
        StreamDirection::Send => "Send"@,
        StreamDirection::Receive => "Receive"@,
        StreamDirection::SendReceive => "SendReceive"@,
    }
}

/// Whether `info` describes the stream `s`.
pub open spec fn is_stream_info(info: Aes67StreamInfo, s: StreamRecord) -> bool {
    &&& info.id@ == lossy_text(s.session_id)
    &&& info.name@ == lossy_text(s.name)
    &&& info.channels == s.channels
    &&& info.sample_rate == s.sample_rate
    &&& info.multicast_addr@ == lossy_text(dotted(s.multicast_addr))
    &&& info.port == s.port
    &&& info.direction@ == direction_name(s.direction)
    &&& info.origin@ == lossy_text(s.origin)
}

/// Whether `list` describes the streams that were discovered, in their
/// order; no stream without discovery.
pub open spec fn is_stream_list(list: Seq<Aes67StreamInfo>, ctx: &ServerContext) -> bool {
    match ctx.streams {
        Some(streams) => {
            &&& list.len() == streams@.len()
            &&& forall|i: int| 0 <= i < list.len() ==> is_stream_info(#[trigger] list[i], streams@[i]@)
        },
        None => list.len() == 0,
    }
}

/// The text that reports an invalid routing cell, as bytes.
pub open spec fn routing_error_text(input: u32, output: u32) -> Seq<u8> {
    "Ung\u{fc}ltiges Routing: ".spec_bytes() + decimal_digits(input as nat) + seq![120u8]
        + decimal_digits(output as nat)
}

/// Whether `mixer` is `before` with the fader, mute, solo, pan or name
/// of a strip set as `msg` asks, or the routing cell set, or nothing
/// changed where `msg` asks for no change or names no strip or cell.
pub open spec fn applied(msg: ClientMessage, before: &Mixer, mixer: &Mixer) -> bool {
    &&& mixer.wf()
    &&& mixer.inputs() == before.inputs()
    &&& mixer.outputs() == before.outputs()
    &&& mixer.strips() == match msg {
        ClientMessage::SetFader { channel, value } if channel < before.inputs() => before.strips().update(
            channel as int,
            crate::channel::ChannelView {
                fader: clamped(value, crate::channel::FADER_MIN, crate::channel::FADER_MAX),
                ..before.strips()[channel as int]
            },
        ),
        ClientMessage::SetMute { channel, muted } if channel < before.inputs() => before.strips().update(
            channel as int,
            crate::channel::ChannelView { mute: muted, ..before.strips()[channel as int] },
        ),
        ClientMessage::SetSolo { channel, solo } if channel < before.inputs() => before.strips().update(
            channel as int,
            crate::channel::ChannelView { solo, ..before.strips()[channel as int] },
        ),
        ClientMessage::SetPan { channel, value } if channel < before.inputs() => before.strips().update(
            channel as int,
            crate::channel::ChannelView {
                pan: clamped(value, crate::channel::PAN_LEFT, crate::channel::PAN_RIGHT),
                ..before.strips()[channel as int]
            },
        ),
        ClientMessage::SetChannelName { channel, name } if channel < before.inputs() => before.strips().update(
            channel as int,
            crate::channel::ChannelView { name: name@, ..before.strips()[channel as int] },
        ),
        _ => before.strips(),
    }
    &&& mixer.routes() == match msg {
        ClientMessage::SetRouting { input, output, gain } if input < before.inputs() && output
            < before.outputs() => with_cell(
            before.routes(),
            input as int,
            output as int,
            clamped(gain, ZERO, ONE),
        ),
        _ => before.routes(),
    }
    &&& mixer.soloed() == match msg {
        ClientMessage::SetSolo { channel, solo } if channel < before.inputs() => if solo {
            crate::mixer::with_solo(before.soloed(), channel)
        } else {
            crate::mixer::without_solo(before.soloed(), channel)
        },
        _ => before.soloed(),
    }
}

/// Whether `out` is what the message `msg` calls for, the mixer having
/// gone from `before` to `mixer`.
pub open spec fn answers(
    msg: ClientMessage,
    before: &Mixer,
    mixer: &Mixer,
    ctx: &ServerContext,
    out: Dispatch,
) -> bool {
    match msg {
        ClientMessage::Hello(_) | ClientMessage::SubscribeMeters { .. } => out matches Dispatch::Reply {
            reply: None,
            broadcast: false,
        },
        ClientMessage::Ping { timestamp } => out matches Dispatch::Reply {
            reply: Some(ServerMessage::Pong { timestamp: t, server_time }),
            broadcast: false,
        } && t == timestamp && server_time == ctx.now_ms,
        ClientMessage::GetState => out matches Dispatch::Reply {
            reply: Some(ServerMessage::State(s)),
            broadcast: false,
        } && is_snapshot(s, mixer),
        ClientMessage::GetServerInfo => out matches Dispatch::Reply {
            reply: Some(ServerMessage::ServerInfo(info)),
            broadcast: false,
        } && is_server_info(info, mixer, ctx),
        ClientMessage::SetFader { channel, .. }
        | ClientMessage::SetMute { channel, .. }
        | ClientMessage::SetSolo { channel, .. }
        | ClientMessage::SetPan { channel, .. }
        | ClientMessage::SetGain { channel, .. }
        | ClientMessage::SetChannelName { channel, .. } => if channel < before.inputs() {
            out matches Dispatch::Reply { reply: Some(m), broadcast: true } && is_channel_update(
                m,
                mixer.strips()[channel as int].snapshot(),
            )
        } else {
            out matches Dispatch::Reply { reply: Some(m), broadcast: false } && is_error(
                m,
                "CHANNEL_NOT_FOUND"@,
                chars_of(not_found_text(channel)),
            )
        },
        ClientMessage::SetRouting { input, output, gain } => if input < before.inputs() && output
            < before.outputs() {
            out matches Dispatch::Reply {
                reply: Some(ServerMessage::RoutingUpdated { input: i, output: o, gain: g }),
                broadcast: true,
            } && i == input && o == output && g == gain
        } else {
            out matches Dispatch::Reply { reply: Some(m), broadcast: false } && is_error(
                m,
                "INVALID_ROUTING"@,
                lossy_text(routing_error_text(input, output)),
            )
        },
        ClientMessage::GetAes67Status => out matches Dispatch::Reply {
            reply: Some(ServerMessage::Aes67Status(s)),
            broadcast: false,
        } && {
            &&& s.enabled == ctx.streams.is_some()
            &&& s.ptp_synchronized == match ctx.ptp {
                Some(p) => p.synchronized,
                None => false,
            }
            &&& s.ptp_offset_ns == match ctx.ptp {
                Some(p) => p.offset_ns,
                None => 0,
            }
            &&& s.our_stream.is_none()
            &&& s.subscribed_streams@.len() == 0
        },
        ClientMessage::GetAes67Streams => out matches Dispatch::Reply {
            reply: Some(ServerMessage::Aes67Streams(list)),
            broadcast: false,
        } && is_stream_list(list@, ctx),
        ClientMessage::RefreshAes67 => out matches Dispatch::Reply {
            reply: Some(ServerMessage::Aes67Streams(list)),
            broadcast: true,
        } && is_stream_list(list@, ctx),
        ClientMessage::SubscribeAes67Stream { stream_id, start_channel } => if ctx.engine_available {
            out matches Dispatch::Subscribe { stream_id: id, start_channel: c } && id@ == stream_id@
                && c == start_channel
        } else {
            out matches Dispatch::Reply { reply: Some(m), broadcast: false } && is_error(
                m,
                "NO_ENGINE"@,
                "AudioEngine not available"@,
            )
        },
        ClientMessage::UnsubscribeAes67Stream { stream_id } => if ctx.engine_available {
            out matches Dispatch::Unsubscribe { stream_id: id } && id@ == stream_id@
        } else {
            out matches Dispatch::Reply { reply: Some(m), broadcast: false } && is_error(
                m,
                "NO_ENGINE"@,
                "AudioEngine not available"@,
            )
        },
        _ => out matches Dispatch::Reply { reply: Some(m), broadcast: false } && is_error(
            m,
            "NOT_IMPLEMENTED"@,
            "Diese Funktion ist noch nicht implementiert"@,
        ),
    }
}

/// The error message with the given code and text.
pub fn error_message(code: &str, text: String) -> (m: ServerMessage)
    ensures
        is_error(m, code@, text@),
{
    ServerMessage::Error { code: code.to_owned(), message: text }
}

/// What the server says of itself.
pub fn server_info(mixer: &Mixer, ctx: &ServerContext) -> (info: ServerInfo)
    requires
        mixer.wf(),
    ensures
        is_server_info(info, mixer, ctx),
{
    proof {
        mixer.lemma_wf();
    }
    ServerInfo {
        name: "AudioMultiverse".to_owned(),
        version: ctx.version.clone(),
        input_count: mixer.input_count() as u32,
        output_count: mixer.output_count() as u32,
        sample_rate: REPORTED_SAMPLE_RATE,
        client_count: ctx.client_count,
        audio_backend: "aes67".to_owned(),
    }
}

/// The description of a discovered stream for clients.
pub fn stream_info(s: &Aes67Stream) -> (info: Aes67StreamInfo)
    ensures
        is_stream_info(info, s@),
{
    let group = s.multicast_addr.to_bytes();
    Aes67StreamInfo {
        id: text_of(s.session_id.as_slice()),
        name: text_of(s.name.as_slice()),
        channels: s.channels,
        sample_rate: s.sample_rate,
        multicast_addr: text_of(group.as_slice()),
        port: s.port,
        direction: match s.direction {
            StreamDirection::Send => "Send".to_owned(),
            StreamDirection::Receive => "Receive".to_owned(),
            StreamDirection::SendReceive => "SendReceive".to_owned(),
        },
        origin: text_of(s.origin.as_slice()),
    }
}

/// The descriptions of all discovered streams.
pub fn stream_list(ctx: &ServerContext) -> (list: Vec<Aes67StreamInfo>)
    ensures
        is_stream_list(list@, ctx),
{
    let mut list: Vec<Aes67StreamInfo> = Vec::new();
    match &ctx.streams {
        Some(streams) => {
            let mut i: usize = 0;
            while i < streams.len()
                invariant
                    i <= streams@.len(),
                    list@.len() == i,
                    forall|k: int|
                        0 <= k < i ==> is_stream_info(#[trigger] list@[k], streams@[k]@),
                decreases streams@.len() - i,
            {
                list.push(stream_info(&streams[i]));
                i = i + 1;
            }
        },
        None => {},
    }
    list
}

/// The reply to a command for the strip `channel`: the update of the
/// strip for every client, or, where there is no such strip, the error
/// `CHANNEL_NOT_FOUND` for the sender.
fn channel_reply(state: Option<ChannelState>, channel: u32) -> (out: Dispatch)
    ensures
        match state {
            Some(s) => out matches Dispatch::Reply { reply: Some(m), broadcast: true }
                && is_channel_update(m, s@),
            None => out matches Dispatch::Reply { reply: Some(m), broadcast: false } && is_error(
                m,
                "CHANNEL_NOT_FOUND"@,
                chars_of(not_found_text(channel)),
            ),
        },
{
    match state {
        Some(s) => Dispatch::Reply { reply: Some(ServerMessage::ChannelUpdated(s)), broadcast: true },
        None => Dispatch::Reply {
            reply: Some(error_message("CHANNEL_NOT_FOUND", channel_not_found(channel))),
            broadcast: false,
        },
    }
}

fn routing_error(input: u32, output: u32) -> (m: ServerMessage)
    ensures
        is_error(m, "INVALID_ROUTING"@, lossy_text(routing_error_text(input, output))),
{
    let mut text: Vec<u8> = Vec::new();
    push_bytes(&mut text, "Ung\u{fc}ltiges Routing: ".as_bytes());
    push_decimal(&mut text, input as u64);
    text.push(120);
    push_decimal(&mut text, output as u64);
    assert(text@ =~= routing_error_text(input, output));
    error_message("INVALID_ROUTING", text_of(text.as_slice()))
}

/// Applies the message of a client to the mixer and says what is to be
/// sent. Commands that change what all clients share are answered to
/// every client; queries, and commands that fail, only to the sender. A
/// command for a strip that does not exist changes nothing and is
/// answered with the error `CHANNEL_NOT_FOUND`, one for a routing cell
/// that does not exist with `INVALID_ROUTING`, and one that the server
/// does not know how to carry out with `NOT_IMPLEMENTED`.
pub fn handle_client_message(msg: ClientMessage, mixer: &mut Mixer, ctx: &ServerContext) -> (out:
    Dispatch)
    requires
        old(mixer).wf(),
    ensures
        applied(msg, old(mixer), final(mixer)),
        answers(msg, old(mixer), final(mixer), ctx, out),
{
    proof {
        mixer.lemma_wf();
    }
    match msg {
        ClientMessage::Hello(_) => Dispatch::Reply { reply: None, broadcast: false },
        ClientMessage::Ping { timestamp } => Dispatch::Reply {
            reply: Some(ServerMessage::Pong { timestamp, server_time: ctx.now_ms }),
            broadcast: false,
        },
        ClientMessage::GetState => Dispatch::Reply {
            reply: Some(ServerMessage::State(mixer.get_state())),
            broadcast: false,
        },
        ClientMessage::GetServerInfo => Dispatch::Reply {
            reply: Some(ServerMessage::ServerInfo(server_info(mixer, ctx))),
            broadcast: false,
        },
        ClientMessage::SetFader { channel, value } => channel_reply(
            mixer.set_fader(channel, value),
            channel,
        ),
        ClientMessage::SetMute { channel, muted } => channel_reply(
            mixer.set_mute(channel, muted),
            channel,
        ),
        ClientMessage::SetSolo { channel, solo } => channel_reply(
            mixer.set_solo(channel, solo),
            channel,
        ),
        ClientMessage::SetPan { channel, value } => channel_reply(
            mixer.set_pan(channel, value),
            channel,
        ),
        ClientMessage::SetGain { channel, value: _ } => channel_reply(
            mixer.get_channel(channel),
            channel,
        ),
        ClientMessage::SetChannelName { channel, name } => channel_reply(
            mixer.set_channel_name(channel, name),
            channel,
        ),
        ClientMessage::SetRouting { input, output, gain } => {
            if mixer.set_routing(input as usize, output as usize, gain) {
                Dispatch::Reply {
                    reply: Some(ServerMessage::RoutingUpdated { input, output, gain }),
                    broadcast: true,
                }
            } else {
                Dispatch::Reply { reply: Some(routing_error(input, output)), broadcast: false }
            }
        },
        ClientMessage::SubscribeMeters { enabled: _, interval_ms: _ } => Dispatch::Reply {
            reply: None,
            broadcast: false,
        },
        ClientMessage::GetAes67Status => {
            let (synchronized, offset) = match ctx.ptp {
                Some(p) => (p.synchronized, p.offset_ns),
                None => (false, 0),
            };
            Dispatch::Reply {
                reply: Some(
                    ServerMessage::Aes67Status(
                        Aes67Status {
                            enabled: ctx.streams.is_some(),
                            ptp_synchronized: synchronized,
                            ptp_offset_ns: offset,
                            our_stream: None,
                            subscribed_streams: Vec::new(),
                        },
                    ),
                ),
                broadcast: false,
            }
        },
        ClientMessage::GetAes67Streams => Dispatch::Reply {
            reply: Some(ServerMessage::Aes67Streams(stream_list(ctx))),
            broadcast: false,
        },
        ClientMessage::RefreshAes67 => Dispatch::Reply {
            reply: Some(ServerMessage::Aes67Streams(stream_list(ctx))),
            broadcast: true,
        },
        ClientMessage::SubscribeAes67Stream { stream_id, start_channel } => {
            if ctx.engine_available {
                Dispatch::Subscribe { stream_id, start_channel }
            } else {
                Dispatch::Reply {
                    reply: Some(
                        error_message("NO_ENGINE", "AudioEngine not available".to_owned()),
                    ),
                    broadcast: false,
                }
            }
        },
        ClientMessage::UnsubscribeAes67Stream { stream_id } => {
            if ctx.engine_available {
                Dispatch::Unsubscribe { stream_id }
            } else {
                Dispatch::Reply {
                    reply: Some(
                        error_message("NO_ENGINE", "AudioEngine not available".to_owned()),
                    ),
                    broadcast: false,
                }
            }
        },
        _ => Dispatch::Reply {
            reply: Some(
                error_message(
                    "NOT_IMPLEMENTED",
                    "Diese Funktion ist noch nicht implementiert".to_owned(),
                ),
            ),
            broadcast: false,
        },
    }
}

/// The answer to a subscription once the audio engine has spoken: the
/// news of the subscription for every client, or the error
/// `SUBSCRIBE_FAILED` with the engine's words for the sender.
pub fn subscription_reply(result: Result<Aes67SubscribeResult, String>) -> (r: (
    Option<ServerMessage>,
    bool,
))
    ensures
        match result {
            Ok(s) => r.0 matches Some(
                ServerMessage::Aes67Subscribed { stream_id, stream_name, channels, start_channel },
            ) && r.1 && stream_id@ == s.stream_id@ && stream_name@ == s.stream_name@ && channels
                == s.channels && start_channel == s.start_channel,
            Err(e) => r.0 matches Some(m) && !r.1 && is_error(m, "SUBSCRIBE_FAILED"@, e@),
        },
{
    match result {
        Ok(s) => (
            Some(
                ServerMessage::Aes67Subscribed {
                    stream_id: s.stream_id,
                    stream_name: s.stream_name,
                    channels: s.channels,
                    start_channel: s.start_channel,
                },
            ),
            true,
        ),
        Err(e) => (Some(error_message("SUBSCRIBE_FAILED", e)), false),
    }
}

/// The answer to the end of a subscription once the audio engine has
/// spoken: the news for every client, or the error `UNSUBSCRIBE_FAILED`
/// with the engine's words for the sender.
pub fn unsubscription_reply(stream_id: String, result: Result<(), String>) -> (r: (
    Option<ServerMessage>,
    bool,
))
    ensures
        match result {
            Ok(_) => r.0 matches Some(ServerMessage::Aes67Unsubscribed { stream_id: id }) && r.1
                && id@ == stream_id@,
            Err(e) => r.0 matches Some(m) && !r.1 && is_error(m, "UNSUBSCRIBE_FAILED"@, e@),
        },
{
    match result {
        Ok(_) => (Some(ServerMessage::Aes67Unsubscribed { stream_id }), true),
        Err(e) => (Some(error_message("UNSUBSCRIBE_FAILED", e)), false),
    }
}

/// The first message to a client that has connected: what the server is
/// and the state of the mixer.
pub fn welcome_message(mixer: &Mixer, ctx: &ServerContext) -> (m: ServerMessage)
    requires
        mixer.wf(),
    ensures
        m matches ServerMessage::Welcome { server_info: info, state } && is_server_info(
            info,
            mixer,
            ctx,
        ) && is_snapshot(state, mixer),
{
    ServerMessage::Welcome { server_info: server_info(mixer, ctx), state: mixer.get_state() }
}

/// The meter message of the moment `now_ms`: the peak reading of every
/// strip.
pub fn meter_message(mixer: &Mixer, now_ms: u64) -> (m: ServerMessage)
    requires
        mixer.wf(),
    ensures
        m matches ServerMessage::Meters(data) && data.timestamp == now_ms && data.peaks@.len()
            == mixer.inputs() && forall|i: int|
            0 <= i < data.peaks@.len() ==> #[trigger] data.peaks@[i] == mixer.strips()[i].meter_peak,
{
    ServerMessage::Meters(MeterData { peaks: mixer.get_meters(), timestamp: now_ms })
}

/// The answer to a message that could not be decoded: the error
/// `PARSE_ERROR` with the decoder's words. The connection stays open.
pub fn parse_error_message(reason: String) -> (m: ServerMessage)
    ensures
        is_error(m, "PARSE_ERROR"@, reason@),
{
    error_message("PARSE_ERROR", reason)
}

/// What goes out for a frame that could not be decoded: the error
/// `PARSE_ERROR` with the decoder's words, to the sender only.
pub fn parse_error_delivery(reason: String) -> (d: Delivery)
    ensures
        d matches Delivery::ToSender(m) && is_error(m, "PARSE_ERROR"@, reason@),
{
    delivery(Some(parse_error_message(reason)), false)
}

/// Counts the connected clients.
pub struct ClientCounter {
    count: u32,
}

impl View for ClientCounter {
    type V = u32;

    closed spec fn view(&self) -> u32 {
        self.count
    }
}

impl ClientCounter {
    pub fn new() -> (c: Self)
        ensures
            c@ == 0,
    {
        ClientCounter { count: 0 }
    }

    pub fn get(&self) -> (n: u32)
        ensures
            n == self@,
    {
        self.count
    }

    /// Counts a client in and returns the number of clients with it.
    pub fn connect(&mut self) -> (n: u32)
        ensures
            n == final(self)@,
            final(self)@ == if old(self)@ == u32::MAX {
                u32::MAX
            } else {
                (old(self)@ + 1) as u32
            },
    {
        if self.count < u32::MAX {
            self.count = self.count + 1;
        }
        self.count
    }

    /// Counts a client out and returns the message that tells the others
    /// how many are left.
    pub fn disconnect(&mut self) -> (m: ServerMessage)
        ensures
            final(self)@ == if old(self)@ == 0 {
                0
            } else {
                (old(self)@ - 1) as u32
            },
            m matches ServerMessage::ClientCountChanged { count } && count == final(self)@,
    {
        if self.count > 0 {
            self.count = self.count - 1;
        }
        ServerMessage::ClientCountChanged { count: self.count }
    }
}

/// A frame as it comes off a connection.
pub enum Frame {
    Text(String),
    Binary(Vec<u8>),
    Ping(Vec<u8>),
    Pong(Vec<u8>),
    Close,
    /// The connection failed.
    Failed,
}

/// What a session does with a frame.
pub enum FrameAction {
    /// Decode the text as a client message and handle it; answer what
    /// cannot be decoded with [`parse_error_message`].
    Decode(String),
    /// Answer the ping with a pong of the same payload.
    Pong(Vec<u8>),
    /// Nothing; wait for the next frame.
    Skip,
    /// End the session.
    Stop,
}

/// Decides what a session does with a frame: text is decoded, a ping is
/// answered, a close or a failure ends the session, anything else is
/// passed over.
pub fn on_frame(frame: Frame) -> (a: FrameAction)
    ensures
        match frame {
            Frame::Text(t) => a matches FrameAction::Decode(s) && s@ == t@,
            Frame::Ping(p) => a matches FrameAction::Pong(q) && q@ == p@,
            Frame::Close | Frame::Failed => a is Stop,
            _ => a is Skip,
        },
{
    match frame {
        Frame::Text(t) => FrameAction::Decode(t),
        Frame::Ping(p) => FrameAction::Pong(p),
        Frame::Close => FrameAction::Stop,
        Frame::Failed => FrameAction::Stop,
        _ => FrameAction::Skip,
    }
}

/// What the broadcast hub hands a session.
pub enum HubEvent {
    /// A message for every client.
    Message(ServerMessage),
    /// The session fell behind and missed this many messages.
    Lagged(u64),
    /// The hub is gone.
    Closed,
}

/// What a session does with what the hub hands it.
pub enum HubAction {
    /// Send the message to the client.
    Forward(ServerMessage),
    /// Carry on; the missed messages are lost to this client only.
    Continue { missed: u64 },
    /// End the forwarding.
    Stop,
}

/// Decides what a session does with what the hub hands it. A client that
/// lags is not disconnected.
pub fn on_hub_event(event: HubEvent) -> (a: HubAction)
    ensures
        match event {
            HubEvent::Message(m) => a matches HubAction::Forward(f) && f == m,
            HubEvent::Lagged(n) => a matches HubAction::Continue { missed } && missed == n,
            HubEvent::Closed => a is Stop,
        },
{
    match event {
        HubEvent::Message(m) => HubAction::Forward(m),
        HubEvent::Lagged(n) => HubAction::Continue { missed: n },
        HubEvent::Closed => HubAction::Stop,
    }
}

/// Where a reply goes.
pub enum Delivery {
    /// There is no reply.
    Nothing,
    /// To the client that sent the command.
    ToSender(ServerMessage),
    /// To the client that sent the command and, through the hub, to
    /// every client.
    ToSenderAndAll(ServerMessage),
}

/// Decides where the reply to a handled message goes: to the sender, and
/// to every client as well when the command changed what all clients
/// share. Without a reply nothing goes out.
pub fn delivery(reply: Option<ServerMessage>, broadcast: bool) -> (d: Delivery)
    ensures
        match reply {
            None => d is Nothing,
            Some(m) => if broadcast {
                d matches Delivery::ToSenderAndAll(x) && x == m
            } else {
                d matches Delivery::ToSender(x) && x == m
            },
        },
{
    match reply {
        None => Delivery::Nothing,
        Some(m) => if broadcast {
            Delivery::ToSenderAndAll(m)
        } else {
            Delivery::ToSender(m)
        },
    }
}

/// A command that changes what all clients share, sent for a strip that
/// exists, has a reply, and the reply goes to every client.
pub proof fn lemma_shared_change_is_broadcast(
    msg: ClientMessage,
    before: &Mixer,
    mixer: &Mixer,
    ctx: &ServerContext,
    out: Dispatch,
)
    requires
        answers(msg, before, mixer, ctx, out),
        applied(msg, before, mixer),
        match msg {
            ClientMessage::SetFader { channel, .. }
            | ClientMessage::SetMute { channel, .. }
            | ClientMessage::SetSolo { channel, .. }
            | ClientMessage::SetPan { channel, .. }
            | ClientMessage::SetChannelName { channel, .. } => channel < before.inputs(),
            ClientMessage::SetRouting { input, output, .. } => input < before.inputs() && output
                < before.outputs(),
            _ => false,
        },
    ensures
        out matches Dispatch::Reply { reply: Some(_), broadcast: true },
{
}

/// A command for a strip that does not exist leaves the strips as they
/// were, and the sender alone is told so.
pub proof fn lemma_unknown_strip_is_refused(
    msg: ClientMessage,
    before: &Mixer,
    mixer: &Mixer,
    ctx: &ServerContext,
    out: Dispatch,
)
    requires
        answers(msg, before, mixer, ctx, out),
        applied(msg, before, mixer),
        match msg {
            ClientMessage::SetFader { channel, .. }
            | ClientMessage::SetMute { channel, .. }
            | ClientMessage::SetSolo { channel, .. }
            | ClientMessage::SetPan { channel, .. }
            | ClientMessage::SetGain { channel, .. }
            | ClientMessage::SetChannelName { channel, .. } => channel >= before.inputs(),
            _ => false,
        },
    ensures
        out matches Dispatch::Reply {
            reply: Some(ServerMessage::Error { code, message: _ }),
            broadcast: false,
        } && code@ == "CHANNEL_NOT_FOUND"@,
        mixer.strips() == before.strips(),
        mixer.routes() == before.routes(),
        mixer.soloed() == before.soloed(),
{
}

} // verus!
