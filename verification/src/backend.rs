//! What a network audio backend is made of: the devices it can reach and
//! the settings of the AES67 transport.

use crate::jitter::padded_front;
use crate::net::{dotted_quad, Ipv4Addr};
use crate::rtp::{
    packet_bytes, packet_count, span_end, span_start, Aes67Format, RtpReceiver, RtpSender,
    PAYLOAD_TYPE_L24,
};
use crate::sdp::{to_vec, Aes67Stream, StreamDirection, StreamRecord};
use crate::text::{ascii, ascii_bytes, decimal_digits, push_bytes, push_decimal};
use vstd::prelude::*;
use vstd::string::*;

verus! {

/// Which way audio flows at a network device.
#[derive(Debug, Clone, Copy, PartialEq, Eq, Structural)]
pub enum NetworkDeviceType {
    Transmitter,
    Receiver,
    Both,
}

/// A device or stream on the audio network. Text is held as bytes.
#[derive(Debug, Clone)]
pub struct NetworkDevice {
    pub id: Vec<u8>,
    pub name: Vec<u8>,
    pub device_type: NetworkDeviceType,
    pub channels: u32,
    pub sample_rate: u32,
    pub ip_address: Option<Vec<u8>>,
    /// Group address of the stream as a dotted quad.
    pub multicast_group: Option<Vec<u8>>,
}

/// The mathematical value of a [`NetworkDevice`].
pub struct DeviceRecord {
    pub id: Seq<u8>,
    pub name: Seq<u8>,
    pub device_type: NetworkDeviceType,
    pub channels: u32,
    pub sample_rate: u32,
    pub ip_address: Option<Seq<u8>>,
    pub multicast_group: Option<Seq<u8>>,
}

impl View for NetworkDevice {
    type V = DeviceRecord;

    open spec fn view(&self) -> DeviceRecord {
        DeviceRecord {
            id: self.id@,
            name: self.name@,
            device_type: self.device_type,
            channels: self.channels,
            sample_rate: self.sample_rate,
            ip_address: match self.ip_address {
                Some(v) => Some(v@),
                None => None,
            },
            multicast_group: match self.multicast_group {
                Some(v) => Some(v@),
                None => None,
            },
        }
    }
}

/// Port that AES67 streams are received on.
pub const AES67_PORT: u16 = 5004;

/// Latency of the AES67 transport in samples: four packets of one
/// millisecond at 48 kHz.
pub const AES67_LATENCY: usize = 192;

/// Latency of the DANTE transport in samples: five milliseconds at
/// 48 kHz.
pub const DANTE_LATENCY: usize = 240;

/// Settings of the AES67 transport.
#[derive(Debug, Clone)]
pub struct Aes67Config {
    /// Network interface to use.
    pub interface: String,
    pub input_channels: u8,
    pub output_channels: u8,
    pub sample_rate: u32,
    /// Group that the output stream is sent to.
    pub output_multicast: Ipv4Addr,
    pub output_port: u16,
    pub stream_name: String,
    /// PTP domain, 0 to 127.
    pub ptp_domain: u8,
}

impl Default for Aes67Config {
    /// Eight channels each way at 48 kHz, sent to 239.69.1.100:5004 as
    /// `AudioMultiverse`, on `eth0` in PTP domain 0.
    fn default() -> (c: Self)
        ensures
            c.interface@ == "eth0"@,
            c.input_channels == 8,
            c.output_channels == 8,
            c.sample_rate == 48000,
            c.output_multicast == (Ipv4Addr { a: 239, b: 69, c: 1, d: 100 }),
            c.output_port == 5004,
            c.stream_name@ == "AudioMultiverse"@,
            c.ptp_domain == 0,
    {
        Aes67Config {
            interface: "eth0".to_owned(),
            input_channels: 8,
            output_channels: 8,
            sample_rate: 48000,
            output_multicast: Ipv4Addr::new(239, 69, 1, 100),
            output_port: 5004,
            stream_name: "AudioMultiverse".to_owned(),
            ptp_domain: 0,
        }
    }
}

impl Aes67Config {
    /// Whether these are the default settings.
    pub open spec fn is_default(&self) -> bool {
        &&& self.interface@ == "eth0"@
        &&& self.input_channels == 8
        &&& self.output_channels == 8
        &&& self.sample_rate == 48000
        &&& self.output_multicast == (Ipv4Addr { a: 239, b: 69, c: 1, d: 100 })
        &&& self.output_port == 5004
        &&& self.stream_name@ == "AudioMultiverse"@
        &&& self.ptp_domain == 0
    }
}

/// Why a device cannot be connected to.
#[derive(Debug, Clone, Copy, PartialEq, Eq, Structural)]
pub enum ConnectError {
    /// The device names no multicast group.
    NoMulticastGroup,
    /// The multicast group of the device is no dotted quad.
    InvalidAddress,
}

/// The format of the output stream of a transport with the settings `c`:
/// L24 in packets of 48 samples.
pub open spec fn output_format(sample_rate: u32, channels: u8) -> Aes67Format {
    Aes67Format { sample_rate, channels, bits_per_sample: 24, samples_per_packet: 48 }
}

/// The session of the output stream of the sender with the source
/// identifier `ssrc`: `audiomultiverse_` and the identifier in decimal.
pub open spec fn own_session(ssrc: u32) -> Seq<u8> {
    ascii("audiomultiverse_"@) + decimal_digits(ssrc as nat)
}

/// The AES67 transport: the output stream that it sends and announces,
/// and the stream that it is connected to. The media clock and the
/// discovery of streams are run by its owner.
pub struct Aes67Backend {
    config: Aes67Config,
    connected: bool,
    rtp_sender: Option<RtpSender>,
    rtp_receiver: Option<RtpReceiver>,
    connected_device: Option<NetworkDevice>,
    our_stream: Option<Aes67Stream>,
}

impl Aes67Backend {
    pub closed spec fn wf(&self) -> bool {
        &&& match self.rtp_receiver {
            Some(r) => r.wf(),
            None => true,
        }
        &&& self.connected == self.rtp_receiver.is_some()
        &&& self.connected == self.connected_device.is_some()
    }

    /// Whether the transport is connected to a stream.
    pub closed spec fn connected(&self) -> bool {
        self.connected
    }

    /// The device that the transport is connected to.
    pub closed spec fn device(&self) -> Option<DeviceRecord> {
        match self.connected_device {
            Some(d) => Some(d@),
            None => None,
        }
    }

    /// The receiver of the stream that the transport is connected to.
    pub closed spec fn receiver(&self) -> Option<RtpReceiver> {
        self.rtp_receiver
    }

    /// The sender of the output stream, once the transport is set up.
    pub closed spec fn sender(&self) -> Option<RtpSender> {
        self.rtp_sender
    }

    /// The output stream as it is announced, once the transport is set up.
    pub closed spec fn announced(&self) -> Option<StreamRecord> {
        match self.our_stream {
            Some(s) => Some(s@),
            None => None,
        }
    }

    pub closed spec fn settings(&self) -> Aes67Config {
        self.config
    }

    /// Whether the transport is set up to send and announce `stream`: a
    /// sender to the group and port of the settings, in L24 with 48
    /// samples to a packet, and a record of the output stream named after
    /// the sender's source identifier, from `local_ip` or, without one,
    /// from `0.0.0.0`.
    pub open spec fn announces(&self, local_ip: Option<Seq<u8>>, stream: StreamRecord) -> bool {
        &&& self.announced() == Some(stream)
        &&& self.sender() matches Some(s) && {
            &&& s.destination() == (self.settings().output_multicast, self.settings().output_port)
            &&& s.stream_format() == output_format(
                self.settings().sample_rate,
                self.settings().output_channels,
            )
            &&& s.stream_payload_type() == PAYLOAD_TYPE_L24
            &&& s.counter() < 65536
            &&& stream.session_id == own_session(s.source_id())
        }
        &&& stream.name == vstd::utf8::encode_utf8(self.settings().stream_name@)
        &&& stream.origin == match local_ip {
            Some(ip) => ip,
            None => ascii("0.0.0.0"@),
        }
        &&& stream.multicast_addr == self.settings().output_multicast
        &&& stream.port == self.settings().output_port
        &&& stream.channels == self.settings().output_channels
        &&& stream.sample_rate == self.settings().sample_rate
        &&& stream.bits_per_sample == 24
        &&& stream.ptime_us == 1000
        &&& stream.direction == StreamDirection::Send
        &&& stream.sdp == Seq::<u8>::empty()
    }

    /// Whether the transport is connected to `device` with a fresh
    /// receiver for the group `group`: port 5004, the format of the
    /// device in L24 with 48 samples to a packet, an empty queue of four
    /// packets' length, no source filter and no packet seen.
    pub open spec fn connected_to(&self, device: DeviceRecord, group: Ipv4Addr) -> bool {
        &&& self.connected()
        &&& self.device() == Some(device)
        &&& self.receiver() matches Some(rx) && {
            &&& rx.source() == (group, AES67_PORT)
            &&& rx.stream_format() == output_format(device.sample_rate, device.channels as u8)
            &&& rx.capacity() == 192
            &&& rx.queued() == Seq::<i32>::empty()
            &&& rx.last_seen() == 0
            &&& rx.filter().is_none()
        }
    }

    /// Whether `self` is `before` but for what its receiver holds.
    pub open spec fn same_but_receiver(&self, before: &Self) -> bool {
        &&& self.wf()
        &&& self.settings() == before.settings()
        &&& self.sender() == before.sender()
        &&& self.announced() == before.announced()
        &&& self.connected() == before.connected()
        &&& self.device() == before.device()
    }

    /// Whether `self` is `before` after the datagram `data` with the
    /// outcome `outcome`: the receiver took it, or, without a connection,
    /// it was dropped.
    pub open spec fn took_packet(
        &self,
        before: &Self,
        data: Seq<u8>,
        outcome: crate::rtp::PacketOutcome,
    ) -> bool {
        &&& self.same_but_receiver(before)
        &&& match before.receiver() {
            Some(rx) => self.receiver() matches Some(after) && after.received(&rx, data, outcome),
            None => outcome == crate::rtp::PacketOutcome::Rejected && self.receiver().is_none(),
        }
    }

    /// Whether `self` is `before` after a read that left `out` in a
    /// buffer and returned `n`: the oldest queued samples, then zeros; or,
    /// without a connection, nothing but zeros and the length of the
    /// buffer.
    pub open spec fn gave_samples(&self, before: &Self, out: Seq<i32>, n: usize) -> bool {
        &&& self.same_but_receiver(before)
        &&& match before.receiver() {
            Some(rx) => {
                &&& out == padded_front(rx.queued(), out.len() as int, 0i32)
                &&& n == if out.len() <= rx.queued().len() {
                    out.len()
                } else {
                    rx.queued().len()
                }
                &&& self.receiver() matches Some(after) && after.queued() == rx.queued().skip(
                    n as int,
                ) && after.same_stream(&rx) && after.last_seen() == rx.last_seen()
            },
            None => {
                &&& n == out.len()
                &&& out == Seq::new(out.len(), |i: int| 0i32)
                &&& self.receiver().is_none()
            },
        }
    }

    /// A transport with the default settings: eight channels each way at
    /// 48 kHz, sent to 239.69.1.100:5004 as `AudioMultiverse`, on `eth0`
    /// in PTP domain 0. It is neither set up nor connected.
    pub fn new() -> (b: Self)
        ensures
            b.wf(),
            b.settings().interface@ == "eth0"@,
            b.settings().input_channels == 8,
            b.settings().output_channels == 8,
            b.settings().sample_rate == 48000,
            b.settings().output_multicast == (Ipv4Addr { a: 239, b: 69, c: 1, d: 100 }),
            b.settings().output_port == 5004,
            b.settings().stream_name@ == "AudioMultiverse"@,
            b.settings().ptp_domain == 0,
            !b.connected(),
            b.device().is_none(),
            b.receiver().is_none(),
            b.sender().is_none(),
            b.announced().is_none(),
    {
        Self::with_config(Aes67Config::default())
    }

    /// A transport with the settings `config`, neither set up nor
    /// connected.
    pub fn with_config(config: Aes67Config) -> (b: Self)
        ensures
            b.wf(),
            b.settings() == config,
            !b.connected(),
            b.device().is_none(),
            b.receiver().is_none(),
            b.sender().is_none(),
            b.announced().is_none(),
    {
        Aes67Backend {
            config,
            connected: false,
            rtp_sender: None,
            rtp_receiver: None,
            connected_device: None,
            our_stream: None,
        }
    }

    pub fn config(&self) -> (c: &Aes67Config)
        ensures
            *c == self.settings(),
    {
        &self.config
    }

    pub fn name(&self) -> (n: &'static str)
        ensures
            n@ == "AES67"@,
    {
        "AES67"
    }

    /// Sets up the output stream: a sender with a random source
    /// identifier, and the record under which the stream is announced.
    /// `local_ip` is the address of this host as a dotted quad; without
    /// one the stream is announced from `0.0.0.0`. Returns the record to
    /// announce.
    pub fn init(&mut self, local_ip: Option<Vec<u8>>) -> (stream: Aes67Stream)
        requires
            old(self).wf(),
        ensures
            final(self).wf(),
            final(self).settings() == old(self).settings(),
            final(self).connected() == old(self).connected(),
            final(self).device() == old(self).device(),
            final(self).receiver() == old(self).receiver(),
            final(self).announces(
                match local_ip {
                    Some(ip) => Some(ip@),
                    None => None,
                },
                stream@,
            ),
            final(self).announced() == Some(stream@),
            final(self).sender() matches Some(s) && {
                &&& s.destination() == (
                    old(self).settings().output_multicast,
                    old(self).settings().output_port,
                )
                &&& s.stream_format() == output_format(
                    old(self).settings().sample_rate,
                    old(self).settings().output_channels,
                )
                &&& s.stream_payload_type() == PAYLOAD_TYPE_L24
                &&& stream@.session_id == own_session(s.source_id())
            },
            stream@.name == vstd::utf8::encode_utf8(old(self).settings().stream_name@),
            stream@.origin == match local_ip {
                Some(ip) => ip@,
                None => ascii("0.0.0.0"@),
            },
            stream@.multicast_addr == old(self).settings().output_multicast,
            stream@.port == old(self).settings().output_port,
            stream@.channels == old(self).settings().output_channels,
            stream@.sample_rate == old(self).settings().sample_rate,
            stream@.bits_per_sample == 24,
            stream@.ptime_us == 1000,
            stream@.direction == StreamDirection::Send,
            stream@.sdp == Seq::<u8>::empty(),
    {
        let format = Aes67Format {
            sample_rate: self.config.sample_rate,
            channels: self.config.output_channels,
            bits_per_sample: 24,
            samples_per_packet: 48,
        };
        let sender = RtpSender::new(self.config.output_multicast, self.config.output_port, format);
        proof {
            reveal_strlit("audiomultiverse_");
            reveal_strlit("0.0.0.0");
        }
        let mut session: Vec<u8> = Vec::new();
        push_bytes(&mut session, ascii_bytes("audiomultiverse_"));
        push_decimal(&mut session, sender.ssrc() as u64);
        assert(session@ =~= own_session(sender.source_id()));
        let origin = match local_ip {
            Some(ip) => ip,
            None => to_vec(ascii_bytes("0.0.0.0")),
        };
        let stream = Aes67Stream {
            name: to_vec(self.config.stream_name.as_str().as_bytes()),
            session_id: session,
            origin,
            multicast_addr: self.config.output_multicast,
            port: self.config.output_port,
            channels: self.config.output_channels,
            sample_rate: self.config.sample_rate,
            bits_per_sample: 24,
            ptime_us: 1000,
            direction: StreamDirection::Send,
            sdp: Vec::new(),
        };
        let copy = stream.duplicate();
        self.our_stream = Some(stream);
        self.rtp_sender = Some(sender);
        copy
    }

    /// The output stream as it is announced.
    pub fn our_stream(&self) -> (s: Option<&Aes67Stream>)
        ensures
            match s {
                Some(x) => self.announced() == Some(x@),
                None => self.announced().is_none(),
            },
    {
        self.our_stream.as_ref()
    }

    /// Connects to the stream of `device`: a receiver for the multicast
    /// group of the device on port 5004, in the format of the device with
    /// L24 in packets of 48 samples. A stream that was connected before is
    /// let go of. The transport is left as it was when the device names no
    /// group that can be read.
    pub fn connect(&mut self, device: &NetworkDevice) -> (r: Result<(), ConnectError>)
        requires
            old(self).wf(),
        ensures
            final(self).wf(),
            final(self).settings() == old(self).settings(),
            final(self).sender() == old(self).sender(),
            final(self).announced() == old(self).announced(),
            match device@.multicast_group {
                None => r == Err::<(), ConnectError>(ConnectError::NoMulticastGroup),
                Some(group) => match dotted_quad(group) {
                    None => r == Err::<(), ConnectError>(ConnectError::InvalidAddress),
                    Some(ip) => {
                        &&& r.is_ok()
                        &&& final(self).connected_to(device@, ip)
                        &&& final(self).connected()
                        &&& final(self).device() == Some(device@)
                        &&& final(self).receiver() matches Some(rx) && {
                            &&& rx.source() == (ip, AES67_PORT)
                            &&& rx.stream_format() == output_format(
                                device@.sample_rate,
                                device@.channels as u8,
                            )
                            &&& rx.queued() == Seq::<i32>::empty()
                            &&& rx.filter().is_none()
                        }
                    },
                },
            },
            r.is_err() ==> final(self).connected() == old(self).connected() && final(self).device()
                == old(self).device() && final(self).receiver() == old(self).receiver(),
    {
        let group = match &device.multicast_group {
            Some(g) => g,
            None => {
                return Err(ConnectError::NoMulticastGroup);
            },
        };
        let ip = match Ipv4Addr::parse(group.as_slice()) {
            Some(ip) => ip,
            None => {
                return Err(ConnectError::InvalidAddress);
            },
        };
        let format = Aes67Format {
            sample_rate: device.sample_rate,
            channels: device.channels as u8,
            bits_per_sample: 24,
            samples_per_packet: 48,
        };
        let receiver = RtpReceiver::new(ip, AES67_PORT, format);
        self.rtp_receiver = Some(receiver);
        self.connected_device = Some(copy_device(device));
        self.connected = true;
        Ok(())
    }

    /// Lets go of the stream that the transport is connected to.
    pub fn disconnect(&mut self)
        requires
            old(self).wf(),
        ensures
            final(self).wf(),
            final(self).settings() == old(self).settings(),
            final(self).sender() == old(self).sender(),
            final(self).announced() == old(self).announced(),
            !final(self).connected(),
            final(self).device().is_none(),
            final(self).receiver().is_none(),
    {
        self.rtp_receiver = None;
        self.connected_device = None;
        self.connected = false;
    }

    /// Takes a datagram of the connected stream. Without a connection it
    /// is dropped.
    pub fn handle_packet(&mut self, data: &[u8]) -> (outcome: crate::rtp::PacketOutcome)
        requires
            old(self).wf(),
        ensures
            final(self).wf(),
            final(self).settings() == old(self).settings(),
            final(self).sender() == old(self).sender(),
            final(self).announced() == old(self).announced(),
            final(self).connected() == old(self).connected(),
            final(self).device() == old(self).device(),
            final(self).took_packet(old(self), data@, outcome),
            match old(self).receiver() {
                Some(rx) => final(self).receiver() matches Some(after) && after.received(
                    &rx,
                    data@,
                    outcome,
                ),
                None => outcome == crate::rtp::PacketOutcome::Rejected && final(self).receiver().is_none(),
            },
    {
        match &mut self.rtp_receiver {
            Some(receiver) => receiver.handle_packet(data),
            None => crate::rtp::PacketOutcome::Rejected,
        }
    }

    /// Fills `buffer` with samples of the connected stream, zeros where
    /// the stream has none to give, and returns how many samples were
    /// real. Without a connection the buffer is filled with zeros and its
    /// length is returned.
    pub fn read_samples(&mut self, buffer: &mut [i32]) -> (n: usize)
        requires
            old(self).wf(),
        ensures
            final(self).wf(),
            final(self).settings() == old(self).settings(),
            final(self).sender() == old(self).sender(),
            final(self).announced() == old(self).announced(),
            final(self).connected() == old(self).connected(),
            final(self).device() == old(self).device(),
            final(buffer)@.len() == old(buffer)@.len(),
            final(self).gave_samples(old(self), final(buffer)@, n),
            match old(self).receiver() {
                Some(rx) => {
                    &&& final(buffer)@ == padded_front(
                        rx.queued(),
                        old(buffer)@.len() as int,
                        0i32,
                    )
                    &&& n == if old(buffer)@.len() <= rx.queued().len() {
                        old(buffer)@.len()
                    } else {
                        rx.queued().len()
                    }
                    &&& final(self).receiver() matches Some(after) && after.queued()
                        == rx.queued().skip(n as int)
                },
                None => {
                    &&& n == old(buffer)@.len()
                    &&& final(buffer)@ == Seq::new(old(buffer)@.len(), |i: int| 0i32)
                    &&& final(self).receiver().is_none()
                },
            },
    {
        match &mut self.rtp_receiver {
            Some(receiver) => receiver.read(buffer),
            None => {
                let len = buffer.len();
                let mut i: usize = 0;
                while i < len
                    invariant
                        i <= len,
                        len == buffer@.len(),
                        forall|k: int| 0 <= k < i ==> buffer@[k] == 0i32,
                    decreases len - i,
                {
                    buffer[i] = 0;
                    i = i + 1;
                }
                assert(buffer@ =~= Seq::new(len as nat, |i: int| 0i32));
                len
            },
        }
    }

    /// Builds the packets that carry `buffer` on the output stream, each
    /// stamped with `timestamp`. There are none before the transport is
    /// set up, and none for a stream without channels.
    pub fn write_samples(&mut self, buffer: &[i32], timestamp: u32) -> (packets: Vec<Vec<u8>>)
        requires
            old(self).wf(),
            12 + 3 * buffer@.len() <= isize::MAX,
        ensures
            final(self).wf(),
            final(self).settings() == old(self).settings(),
            final(self).announced() == old(self).announced(),
            final(self).connected() == old(self).connected(),
            final(self).device() == old(self).device(),
            final(self).receiver() == old(self).receiver(),
            match old(self).sender() {
                Some(tx) if tx.stream_format().is_valid() => {
                    &&& packets@.len() == packet_count(buffer@.len() as int, tx.stream_format())
                    &&& forall|k: int|
                        0 <= k < packets@.len() ==> (#[trigger] packets@[k])@ == packet_bytes(
                            tx.header_at(tx.counter() + k, timestamp),
                            buffer@.subrange(
                                span_start(k, tx.stream_format()),
                                span_end(k, buffer@.len() as int, tx.stream_format()),
                            ),
                        )
                    &&& final(self).sender() matches Some(after) && after.advanced_from(
                        &tx,
                        packets@.len() as int,
                    )
                },
                _ => packets@.len() == 0 && final(self).sender() == old(self).sender(),
            },
    {
        match &mut self.rtp_sender {
            Some(sender) => {
                let f = sender.format();
                if f.channels > 0 && f.samples_per_packet > 0 {
                    sender.send(buffer, timestamp)
                } else {
                    Vec::new()
                }
            },
            None => Vec::new(),
        }
    }

    /// Group and port of the stream that the transport is connected to:
    /// where its datagrams are to be read from.
    pub fn receiver_source(&self) -> (r: Option<(Ipv4Addr, u16)>)
        ensures
            match self.receiver() {
                Some(rx) => r == Some(rx.source()),
                None => r.is_none(),
            },
    {
        match &self.rtp_receiver {
            Some(rx) => Some((rx.multicast_addr(), rx.port())),
            None => None,
        }
    }

    /// Latency of the transport in samples.
    pub fn latency(&self) -> (n: usize)
        ensures
            n == AES67_LATENCY,
    {
        AES67_LATENCY
    }

    pub fn is_connected(&self) -> (b: bool)
        ensures
            b == self.connected(),
    {
        self.connected
    }
}

fn copy_device(d: &NetworkDevice) -> (r: NetworkDevice)
    ensures
        r@ == d@,
{
    NetworkDevice {
        id: d.id.clone(),
        name: d.name.clone(),
        device_type: d.device_type,
        channels: d.channels,
        sample_rate: d.sample_rate,
        ip_address: match &d.ip_address {
            Some(v) => Some(v.clone()),
            None => None,
        },
        multicast_group: match &d.multicast_group {
            Some(v) => Some(v.clone()),
            None => None,
        },
    }
}

/// The DANTE transport. It keeps the state of its connection; audio does
/// not flow through it.
pub struct DanteBackend {
    connected: bool,
}

impl DanteBackend {
    pub closed spec fn connected(&self) -> bool {
        self.connected
    }

    pub fn new() -> (b: Self)
        ensures
            !b.connected(),
    {
        DanteBackend { connected: false }
    }

    pub fn name(&self) -> (n: &'static str)
        ensures
            n@ == "DANTE"@,
    {
        "DANTE"
    }

    /// The devices that can be reached: none.
    pub fn discover(&self) -> (devices: Vec<NetworkDevice>)
        ensures
            devices@.len() == 0,
    {
        Vec::new()
    }

    pub fn connect(&mut self, device: &NetworkDevice)
        ensures
            final(self).connected(),
    {
        self.connected = true;
    }

    pub fn disconnect(&mut self)
        ensures
            !final(self).connected(),
    {
        self.connected = false;
    }

    /// Fills `buffer` with zeros and returns its length.
    pub fn read_samples(&self, buffer: &mut [i32]) -> (n: usize)
        ensures
            n == old(buffer)@.len(),
            final(buffer)@ == Seq::new(old(buffer)@.len(), |i: int| 0i32),
    {
        let len = buffer.len();
        let mut i: usize = 0;
        while i < len
            invariant
                i <= len,
                len == buffer@.len(),
                forall|k: int| 0 <= k < i ==> buffer@[k] == 0i32,
            decreases len - i,
        {
            buffer[i] = 0;
            i = i + 1;
        }
        assert(buffer@ =~= Seq::new(len as nat, |i: int| 0i32));
        len
    }

    /// Takes no samples.
    pub fn write_samples(&self, buffer: &[i32]) -> (n: usize)
        ensures
            n == 0,
    {
        0
    }

    pub fn latency(&self) -> (n: usize)
        ensures
            n == DANTE_LATENCY,
    {
        DANTE_LATENCY
    }

    pub fn is_connected(&self) -> (b: bool)
        ensures
            b == self.connected(),
    {
        self.connected
    }
}

} // verus!
