//! RTP framing for AES67 streams: the fixed 12-byte header, the stream
//! format and the L24 payload codec.

use crate::jitter::{keep_last, padded_front, JitterBuffer};
use crate::net::Ipv4Addr;
use vstd::prelude::*;

verus! {

/// Dynamic payload type used for L24 audio.
pub const PAYLOAD_TYPE_L24: u8 = 97;

/// Length of the fixed RTP header in bytes.
pub const HEADER_LEN: usize = 12;

/// The fixed part of an RTP header.
#[derive(Debug, Clone, Copy, PartialEq, Eq, Structural)]
pub struct RtpHeader {
    /// Protocol version, 2 on every packet this library accepts.
    pub version: u8,
    pub padding: bool,
    pub extension: bool,
    /// Number of contributing sources, four bits on the wire.
    pub csrc_count: u8,
    pub marker: bool,
    /// Payload type, seven bits on the wire.
    pub payload_type: u8,
    pub sequence: u16,
    /// Media clock timestamp in samples.
    pub timestamp: u32,
    pub ssrc: u32,
}

/// Value of a big-endian 16-bit field.
pub open spec fn be16(b0: u8, b1: u8) -> int {
    b0 as int * 256 + b1 as int
}

/// Value of a big-endian 32-bit field.
pub open spec fn be32(b0: u8, b1: u8, b2: u8, b3: u8) -> int {
    ((b0 as int * 256 + b1 as int) * 256 + b2 as int) * 256 + b3 as int
}

pub open spec fn bit(b: bool) -> int {
    if b { 1 } else { 0 }
}

/// The twelve header bytes that stand for `h`. Fields wider than their
/// place on the wire are cut to it.
pub open spec fn header_bytes(h: RtpHeader) -> Seq<u8> {
    seq![
        ((h.version as int % 4) * 64 + bit(h.padding) * 32 + bit(h.extension) * 16
            + h.csrc_count as int % 16) as u8,
        (bit(h.marker) * 128 + h.payload_type as int % 128) as u8,
        (h.sequence as int / 256) as u8,
        (h.sequence as int % 256) as u8,
        (h.timestamp as int / 16777216) as u8,
        (h.timestamp as int / 65536 % 256) as u8,
        (h.timestamp as int / 256 % 256) as u8,
        (h.timestamp as int % 256) as u8,
        (h.ssrc as int / 16777216) as u8,
        (h.ssrc as int / 65536 % 256) as u8,
        (h.ssrc as int / 256 % 256) as u8,
        (h.ssrc as int % 256) as u8,
    ]
}

/// The header that the first twelve bytes of `data` spell out, whatever
/// its version.
pub open spec fn header_fields(data: Seq<u8>) -> RtpHeader
    recommends
        data.len() >= 12,
{
    RtpHeader {
        version: (data[0] as int / 64) as u8,
        padding: data[0] as int / 32 % 2 == 1,
        extension: data[0] as int / 16 % 2 == 1,
        csrc_count: (data[0] as int % 16) as u8,
        marker: data[1] as int / 128 == 1,
        payload_type: (data[1] as int % 128) as u8,
        sequence: be16(data[2], data[3]) as u16,
        timestamp: be32(data[4], data[5], data[6], data[7]) as u32,
        ssrc: be32(data[8], data[9], data[10], data[11]) as u32,
    }
}

/// What parsing `data` yields: a header when there are at least twelve
/// bytes and the version field is 2.
pub open spec fn parse_header(data: Seq<u8>) -> Option<RtpHeader> {
    if data.len() >= 12 && data[0] as int / 64 == 2 {
        Some(header_fields(data))
    } else {
        None
    }
}

impl RtpHeader {
    /// A header every field of which fits its place on the wire.
    pub open spec fn is_legal(self) -> bool {
        &&& self.version == 2
        &&& self.csrc_count < 16
        &&& self.payload_type < 128
    }

    /// A version-2 header with all flags clear and sequence and timestamp
    /// at zero.
    pub fn new(payload_type: u8, ssrc: u32) -> (h: Self)
        ensures
            h == (RtpHeader {
                version: 2,
                padding: false,
                extension: false,
                csrc_count: 0,
                marker: false,
                payload_type,
                sequence: 0,
                timestamp: 0,
                ssrc,
            }),
    {
        RtpHeader {
            version: 2,
            padding: false,
            extension: false,
            csrc_count: 0,
            marker: false,
            payload_type,
            sequence: 0,
            timestamp: 0,
            ssrc,
        }
    }

    /// Serialises the header into its twelve wire bytes.
    pub fn to_bytes(&self) -> (buf: [u8; 12])
        ensures
            buf@ == header_bytes(*self),
    {
        let flag_p: u8 = if self.padding { 32 } else { 0 };
        let flag_x: u8 = if self.extension { 16 } else { 0 };
        let flag_m: u8 = if self.marker { 128 } else { 0 };
        let buf: [u8; 12] = [
            (self.version % 4) * 64 + flag_p + flag_x + self.csrc_count % 16,
            flag_m + self.payload_type % 128,
            (self.sequence / 256) as u8,
            (self.sequence % 256) as u8,
            (self.timestamp / 16777216) as u8,
            (self.timestamp / 65536 % 256) as u8,
            (self.timestamp / 256 % 256) as u8,
            (self.timestamp % 256) as u8,
            (self.ssrc / 16777216) as u8,
            (self.ssrc / 65536 % 256) as u8,
            (self.ssrc / 256 % 256) as u8,
            (self.ssrc % 256) as u8,
        ];
        assert(buf@ =~= header_bytes(*self));
        buf
    }

    /// Parses the header at the start of `data`. Too short a slice and any
    /// version other than 2 give `None`.
    pub fn from_bytes(data: &[u8]) -> (r: Option<Self>)
        ensures
            r == parse_header(data@),
    {
        if data.len() < 12 {
            return None;
        }
        let version: u8 = data[0] / 64;
        if version != 2 {
            return None;
        }
        let sequence: u16 = data[2] as u16 * 256 + data[3] as u16;
        let timestamp: u32 = ((data[4] as u32 * 256 + data[5] as u32) * 256 + data[6] as u32)
            * 256 + data[7] as u32;
        let ssrc: u32 = ((data[8] as u32 * 256 + data[9] as u32) * 256 + data[10] as u32) * 256
            + data[11] as u32;
        Some(
            RtpHeader {
                version,
                padding: data[0] / 32 % 2 == 1,
                extension: data[0] / 16 % 2 == 1,
                csrc_count: data[0] % 16,
                marker: data[1] / 128 == 1,
                payload_type: data[1] % 128,
                sequence,
                timestamp,
                ssrc,
            },
        )
    }
}

/// Parsing the serialised form of a legal header gives the header back.
pub proof fn lemma_header_roundtrip(h: RtpHeader)
    requires
        h.is_legal(),
    ensures
        parse_header(header_bytes(h)) == Some(h),
{
    let b = header_bytes(h);
    assert(b.len() == 12);
    assert(b[0] as int == 128 + bit(h.padding) * 32 + bit(h.extension) * 16 + h.csrc_count);
    assert(b[1] as int == bit(h.marker) * 128 + h.payload_type);
    let p = header_fields(b);
    assert(p.sequence == h.sequence);
    assert(p.timestamp == h.timestamp);
    assert(p.ssrc == h.ssrc);
}

/// Stream format of an AES67 sender or receiver.
#[derive(Debug, Clone, Copy, PartialEq, Eq, Structural)]
pub struct Aes67Format {
    pub sample_rate: u32,
    pub channels: u8,
    pub bits_per_sample: u8,
    /// Samples per channel in one packet.
    pub samples_per_packet: u16,
}

impl Default for Aes67Format {
    /// Stereo L24 at 48 kHz in packets of one millisecond.
    fn default() -> (f: Self)
        ensures
            f == (Aes67Format {
                sample_rate: 48000,
                channels: 2,
                bits_per_sample: 24,
                samples_per_packet: 48,
            }),
    {
        Aes67Format { sample_rate: 48000, channels: 2, bits_per_sample: 24, samples_per_packet: 48 }
    }
}

impl Aes67Format {
    /// A format that packets can be cut to: at least one channel and one
    /// sample per packet.
    pub open spec fn is_valid(self) -> bool {
        self.channels > 0 && self.samples_per_packet > 0
    }

    /// Interleaved samples in a full packet.
    pub open spec fn samples_in_packet(self) -> int {
        self.samples_per_packet as int * self.channels as int
    }

    /// Payload bytes of a full packet: three per sample and channel.
    pub fn bytes_per_packet(&self) -> (n: usize)
        ensures
            n == self.samples_per_packet as int * self.channels as int * 3,
    {
        assert(self.samples_per_packet as int * self.channels as int <= 65535 * 255)
            by (nonlinear_arith)
            requires
                self.samples_per_packet <= 65535,
                self.channels <= 255,
        ;
        self.samples_per_packet as usize * self.channels as usize * 3
    }

    /// Interleaved samples in a full packet.
    pub fn interleaved_per_packet(&self) -> (n: usize)
        ensures
            n == self.samples_in_packet(),
            n <= 65535 * 255,
    {
        assert(self.samples_per_packet as int * self.channels as int <= 65535 * 255)
            by (nonlinear_arith)
            requires
                self.samples_per_packet <= 65535,
                self.channels <= 255,
        ;
        self.samples_per_packet as usize * self.channels as usize
    }
}

/// Largest sample value of the 24-bit scale.
pub const PCM24_MAX: i32 = 8388607;

/// `v` held to the symmetric 24-bit range.
pub open spec fn clamp_pcm24(v: int) -> int {
    if v < -8388607 {
        -8388607
    } else if v > 8388607 {
        8388607
    } else {
        v
    }
}

/// The three big-endian bytes of `v` in 24-bit two's complement.
pub open spec fn l24_bytes(v: int) -> Seq<u8> {
    let u = v % 16777216;
    seq![(u / 65536) as u8, (u / 256 % 256) as u8, (u % 256) as u8]
}

/// The signed value of three big-endian bytes in 24-bit two's complement.
pub open spec fn l24_value(b0: u8, b1: u8, b2: u8) -> int {
    let raw = (b0 as int * 256 + b1 as int) * 256 + b2 as int;
    if raw >= 8388608 {
        raw - 16777216
    } else {
        raw
    }
}

/// The payload that carries `samples`: each held to the 24-bit range and
/// written as three bytes.
pub open spec fn l24_payload(samples: Seq<i32>) -> Seq<u8> {
    Seq::new(samples.len() * 3, |i: int| l24_bytes(clamp_pcm24(samples[i / 3] as int))[i % 3])
}

/// The samples that `payload` carries. Bytes after the last full triple
/// are not looked at.
pub open spec fn l24_samples(payload: Seq<u8>) -> Seq<i32> {
    Seq::new(
        payload.len() / 3,
        |i: int| l24_value(payload[3 * i], payload[3 * i + 1], payload[3 * i + 2]) as i32,
    )
}

/// Writes one sample as L24 after holding it to the 24-bit range.
pub fn encode_l24(sample: i32) -> (b: [u8; 3])
    ensures
        b@ == l24_bytes(clamp_pcm24(sample as int)),
{
    let clamped: i32 = if sample < -PCM24_MAX {
        -PCM24_MAX
    } else if sample > PCM24_MAX {
        PCM24_MAX
    } else {
        sample
    };
    let u: u32 = if clamped < 0 {
        (clamped + 16777216) as u32
    } else {
        clamped as u32
    };
    let b: [u8; 3] = [(u / 65536) as u8, (u / 256 % 256) as u8, (u % 256) as u8];
    assert(b@ =~= l24_bytes(clamped as int));
    b
}

/// Reads every full triple of `data` as one L24 sample.
pub fn decode_l24(data: &[u8]) -> (samples: Vec<i32>)
    ensures
        samples@ == l24_samples(data@),
{
    let count: usize = data.len() / 3;
    let mut samples: Vec<i32> = Vec::with_capacity(count);
    let mut i: usize = 0;
    while i < count
        invariant
            i <= count,
            count == data@.len() / 3,
            count * 3 <= data@.len() <= usize::MAX,
            samples@.len() == i,
            forall|k: int| 0 <= k < i ==> samples@[k] == l24_samples(data@)[k],
        decreases count - i,
    {
        let offset: usize = i * 3;
        let raw: i32 = (data[offset] as i32 * 256 + data[offset + 1] as i32) * 256 + data[offset
            + 2] as i32;
        let signed: i32 = if raw >= 8388608 {
            raw - 16777216
        } else {
            raw
        };
        samples.push(signed);
        i = i + 1;
    }
    assert(samples@ =~= l24_samples(data@));
    samples
}

/// Every value of the 24-bit range survives the trip through its wire
/// bytes unchanged.
pub proof fn lemma_l24_roundtrip(v: int)
    requires
        -8388608 <= v < 8388608,
    ensures
        l24_bytes(v).len() == 3,
        l24_value(l24_bytes(v)[0], l24_bytes(v)[1], l24_bytes(v)[2]) == v,
{
}

/// A payload decodes to the samples it was made from, each held to the
/// 24-bit range.
pub proof fn lemma_payload_roundtrip(samples: Seq<i32>)
    ensures
        l24_samples(l24_payload(samples)).len() == samples.len(),
        forall|i: int|
            0 <= i < samples.len() ==> #[trigger] l24_samples(l24_payload(samples))[i]
                == clamp_pcm24(samples[i] as int),
{
    let p = l24_payload(samples);
    assert forall|i: int| 0 <= i < samples.len() implies #[trigger] l24_samples(p)[i]
        == clamp_pcm24(samples[i] as int) by {
        let v = clamp_pcm24(samples[i] as int);
        lemma_l24_roundtrip(v);
        assert(p[3 * i] == l24_bytes(v)[0]);
        assert(p[3 * i + 1] == l24_bytes(v)[1]);
        assert(p[3 * i + 2] == l24_bytes(v)[2]);
    }
}

/// Growable byte buffer of the `bytes` crate, used to assemble packets.
#[verifier::external_type_specification]
#[verifier::external_body]
pub struct ExBytesMut(bytes::BytesMut);

/// The bytes that a packet buffer holds, in the order in which they were
/// written.
pub uninterp spec fn buffer_bytes(b: bytes::BytesMut) -> Seq<u8>;

/// `BytesMut::with_capacity`: a buffer that holds no bytes yet. The
/// capacity is only a hint; it must not exceed what an allocation can span.
#[verifier::external_body]
fn buffer_with_capacity(capacity: usize) -> (b: bytes::BytesMut)
    requires
        capacity <= isize::MAX,
    ensures
        buffer_bytes(b) == Seq::<u8>::empty(),
{
    bytes::BytesMut::with_capacity(capacity)
}

/// `BytesMut::extend_from_slice`: appends `data` to what the buffer holds.
#[verifier::external_body]
fn buffer_extend(b: &mut bytes::BytesMut, data: &[u8])
    requires
        buffer_bytes(*old(b)).len() + data@.len() <= isize::MAX,
    ensures
        buffer_bytes(*final(b)) == buffer_bytes(*old(b)) + data@,
{
    b.extend_from_slice(data)
}

/// `BufMut::put_slice` on a `BytesMut`: appends `data` to what the buffer
/// holds, growing it as needed.
#[verifier::external_body]
fn buffer_put(b: &mut bytes::BytesMut, data: &[u8])
    requires
        buffer_bytes(*old(b)).len() + data@.len() <= isize::MAX,
    ensures
        buffer_bytes(*final(b)) == buffer_bytes(*old(b)) + data@,
{
    bytes::BufMut::put_slice(b, data)
}

/// `Vec::from(BytesMut)`: hands out the bytes that the buffer holds.
#[verifier::external_body]
fn buffer_into_vec(b: bytes::BytesMut) -> (v: Vec<u8>)
    ensures
        v@ == buffer_bytes(b),
{
    Vec::from(b)
}

/// `rand::random::<u32>()`: a number drawn from the thread's generator.
/// Nothing is known of the value.
#[verifier::external_body]
fn random_u32() -> u32 {
    rand::random::<u32>()
}

/// The packet that carries `samples` behind `header`.
pub open spec fn packet_bytes(header: RtpHeader, samples: Seq<i32>) -> Seq<u8> {
    header_bytes(header) + l24_payload(samples)
}

/// Assembles one RTP packet: the header, then every sample as L24.
pub fn encode_packet(header: &RtpHeader, samples: &[i32]) -> (packet: Vec<u8>)
    requires
        12 + 3 * samples@.len() <= isize::MAX,
    ensures
        packet@ == packet_bytes(*header, samples@),
{
    let mut buf = buffer_with_capacity(12 + samples.len() * 3);
    let head = header.to_bytes();
    buffer_extend(&mut buf, head.as_slice());
    let mut i: usize = 0;
    while i < samples.len()
        invariant
            i <= samples@.len(),
            12 + 3 * samples@.len() <= isize::MAX,
            buffer_bytes(buf) == header_bytes(*header) + l24_payload(samples@.take(i as int)),
        decreases samples@.len() - i,
    {
        let b = encode_l24(samples[i]);
        proof {
            let before = l24_payload(samples@.take(i as int));
            let after = l24_payload(samples@.take(i as int + 1));
            assert(after =~= before + b@);
            assert(header_bytes(*header) + before + b@ =~= header_bytes(*header) + after);
        }
        buffer_put(&mut buf, b.as_slice());
        i = i + 1;
    }
    assert(samples@.take(samples@.len() as int) =~= samples@);
    buffer_into_vec(buf)
}

/// Number of packets that `sample_count` interleaved samples are sent in:
/// as many as their whole frames need at `samples_per_packet` frames to a
/// packet. Samples that fill no whole frame add no packet.
pub open spec fn packet_count(sample_count: int, f: Aes67Format) -> int {
    let frames = sample_count / (f.channels as int);
    (frames + f.samples_per_packet - 1) / (f.samples_per_packet as int)
}

/// Where the samples of packet `k` start.
pub open spec fn span_start(k: int, f: Aes67Format) -> int {
    k * f.samples_in_packet()
}

/// Where the samples of packet `k` end.
pub open spec fn span_end(k: int, sample_count: int, f: Aes67Format) -> int {
    if (k + 1) * f.samples_in_packet() < sample_count {
        (k + 1) * f.samples_in_packet()
    } else {
        sample_count
    }
}

/// Sending side of one RTP stream: where it goes, what it is called on the
/// wire, and the running packet counter.
pub struct RtpSender {
    multicast_addr: Ipv4Addr,
    port: u16,
    ssrc: u32,
    sequence: u32,
    format: Aes67Format,
    payload_type: u8,
}

impl RtpSender {
    /// Group address and port that the stream is sent to.
    pub closed spec fn destination(&self) -> (Ipv4Addr, u16) {
        (self.multicast_addr, self.port)
    }

    /// Synchronisation source identifier of the stream.
    pub closed spec fn source_id(&self) -> u32 {
        self.ssrc
    }

    /// Packets counted so far, starting from the first sequence number.
    pub closed spec fn counter(&self) -> u32 {
        self.sequence
    }

    pub closed spec fn stream_format(&self) -> Aes67Format {
        self.format
    }

    pub closed spec fn stream_payload_type(&self) -> u8 {
        self.payload_type
    }

    /// The header of a packet sent at packet count `counter`.
    pub open spec fn header_at(&self, counter: int, timestamp: u32) -> RtpHeader {
        RtpHeader {
            version: 2,
            padding: false,
            extension: false,
            csrc_count: 0,
            marker: false,
            payload_type: self.stream_payload_type(),
            sequence: (counter % 65536) as u16,
            timestamp,
            ssrc: self.source_id(),
        }
    }

    /// Whether `self` is `before` with `sent` more packets counted.
    pub open spec fn advanced_from(&self, before: &Self, sent: int) -> bool {
        &&& self.destination() == before.destination()
        &&& self.source_id() == before.source_id()
        &&& self.stream_format() == before.stream_format()
        &&& self.stream_payload_type() == before.stream_payload_type()
        &&& self.counter() == (before.counter() + sent) % 4294967296
    }

    /// A sender with a random source identifier and a random first
    /// sequence number.
    pub fn new(multicast_addr: Ipv4Addr, port: u16, format: Aes67Format) -> (s: Self)
        ensures
            s.destination() == (multicast_addr, port),
            s.stream_format() == format,
            s.stream_payload_type() == PAYLOAD_TYPE_L24,
            s.counter() < 65536,
    {
        let ssrc = random_u32();
        let first = (random_u32() % 65536) as u16;
        Self::with_identity(multicast_addr, port, format, ssrc, first)
    }

    /// A sender with the given source identifier and first sequence number.
    pub fn with_identity(
        multicast_addr: Ipv4Addr,
        port: u16,
        format: Aes67Format,
        ssrc: u32,
        first_sequence: u16,
    ) -> (s: Self)
        ensures
            s.destination() == (multicast_addr, port),
            s.stream_format() == format,
            s.stream_payload_type() == PAYLOAD_TYPE_L24,
            s.source_id() == ssrc,
            s.counter() == first_sequence,
    {
        RtpSender {
            multicast_addr,
            port,
            ssrc,
            sequence: first_sequence as u32,
            format,
            payload_type: PAYLOAD_TYPE_L24,
        }
    }

    pub fn ssrc(&self) -> (id: u32)
        ensures
            id == self.source_id(),
    {
        self.ssrc
    }

    pub fn multicast_addr(&self) -> (ip: Ipv4Addr)
        ensures
            ip == self.destination().0,
    {
        self.multicast_addr
    }

    pub fn port(&self) -> (p: u16)
        ensures
            p == self.destination().1,
    {
        self.port
    }

    pub fn format(&self) -> (f: Aes67Format)
        ensures
            f == self.stream_format(),
    {
        self.format
    }

    /// Builds the next packet of the stream around `samples` and counts it.
    pub fn next_packet(&mut self, samples: &[i32], timestamp: u32) -> (packet: Vec<u8>)
        requires
            12 + 3 * samples@.len() <= isize::MAX,
        ensures
            packet@ == packet_bytes(
                old(self).header_at(old(self).counter() as int, timestamp),
                samples@,
            ),
            final(self).advanced_from(old(self), 1),
    {
        let mut header = RtpHeader::new(self.payload_type, self.ssrc);
        header.sequence = (self.sequence % 65536) as u16;
        header.timestamp = timestamp;
        self.sequence = if self.sequence == u32::MAX {
            0
        } else {
            self.sequence + 1
        };
        encode_packet(&header, samples)
    }

    /// Cuts `samples` into packets and builds them all, each stamped with
    /// `timestamp`, with consecutive sequence numbers. Every packet takes
    /// a full packet's worth of samples but the last, which takes what is
    /// left up to that, samples of a frame that is not whole included.
    /// The number of packets goes by whole frames: where those fill the
    /// last packet, the samples behind them, fewer than a frame, are not
    /// sent.
    pub fn send(&mut self, samples: &[i32], timestamp: u32) -> (packets: Vec<Vec<u8>>)
        requires
            old(self).stream_format().is_valid(),
            12 + 3 * samples@.len() <= isize::MAX,
        ensures
            packets@.len() == packet_count(samples@.len() as int, old(self).stream_format()),
            forall|k: int|
                0 <= k < packets@.len() ==> (#[trigger] packets@[k])@ == packet_bytes(
                    old(self).header_at(old(self).counter() + k, timestamp),
                    samples@.subrange(
                        span_start(k, old(self).stream_format()),
                        span_end(k, samples@.len() as int, old(self).stream_format()),
                    ),
                ),
            final(self).advanced_from(old(self), packets@.len() as int),
    {
        let ghost before = *self;
        let f = self.format;
        let total: usize = samples.len();
        let per: usize = f.interleaved_per_packet();
        let frames: usize = total / (f.channels as usize);
        let needed: usize = (frames + f.samples_per_packet as usize - 1) / (
        f.samples_per_packet as usize);
        let mut packets: Vec<Vec<u8>> = Vec::new();
        let mut k: usize = 0;
        let mut offset: usize = 0;
        proof {
            lemma_spans_fit(total as int, f);
        }
        while k < needed
            invariant
                k <= needed,
                needed == packet_count(total as int, f),
                f == before.stream_format(),
                f.is_valid(),
                per == f.samples_in_packet(),
                total == samples@.len(),
                12 + 3 * samples@.len() <= isize::MAX,
                k < needed ==> offset == k * per,
                forall|j: int| 0 <= j < needed ==> #[trigger] span_start(j, f) < total,
                packets@.len() == k,
                self.advanced_from(&before, k as int),
                forall|j: int|
                    0 <= j < k ==> (#[trigger] packets@[j])@ == packet_bytes(
                        before.header_at(before.counter() + j, timestamp),
                        samples@.subrange(span_start(j, f), span_end(j, total as int, f)),
                    ),
            decreases needed - k,
        {
            assert((k + 1) * per == k * per + per) by (nonlinear_arith);
            assert(span_start(k as int, f) < total);
            let left: usize = total - offset;
            let take: usize = if per < left { per } else { left };
            let chunk = vstd::slice::slice_subrange(samples, offset, offset + take);
            let ghost counter_before = self.sequence;
            let packet = self.next_packet(chunk, timestamp);
            proof {
                let c = before.counter() as int + k as int;
                assert(counter_before as int == c % 4294967296);
                assert((c % 4294967296) % 65536 == c % 65536);
                assert(self.counter() == (before.counter() + (k + 1)) % 4294967296);
            }
            packets.push(packet);
            k = k + 1;
            offset = offset + take;
            proof {
                if k < needed {
                    assert(span_start(k as int, f) < total);
                }
            }
        }
        packets
    }
}

/// Every packet that `packet_count` counts has at least one sample: the
/// start of each span lies before the end of the input.
pub proof fn lemma_spans_fit(sample_count: int, f: Aes67Format)
    requires
        f.is_valid(),
        sample_count >= 0,
    ensures
        packet_count(sample_count, f) >= 0,
        forall|k: int|
            0 <= k < packet_count(sample_count, f) ==> #[trigger] span_start(k, f) < sample_count,
{
    let ch = f.channels as int;
    let spp = f.samples_per_packet as int;
    let frames = sample_count / ch;
    let needed = (frames + spp - 1) / spp;
    vstd::arithmetic::div_mod::lemma_fundamental_div_mod(sample_count, ch);
    vstd::arithmetic::div_mod::lemma_fundamental_div_mod(frames + spp - 1, spp);
    assert(frames >= 0 && ch * frames <= sample_count) by (nonlinear_arith)
        requires
            sample_count == ch * frames + sample_count % ch,
            0 <= sample_count % ch < ch,
            sample_count >= 0,
            ch > 0,
            frames == sample_count / ch,
    ;
    assert(needed >= 0 && (needed - 1) * spp < frames || (needed == 0 && frames == 0))
        by (nonlinear_arith)
        requires
            frames + spp - 1 == spp * needed + (frames + spp - 1) % spp,
            0 <= (frames + spp - 1) % spp < spp,
            frames >= 0,
            spp > 0,
    ;
    assert forall|k: int| 0 <= k < needed implies #[trigger] span_start(k, f) < sample_count by {
        assert(k * (spp * ch) < sample_count) by (nonlinear_arith)
            requires
                0 <= k <= needed - 1,
                (needed - 1) * spp < frames,
                ch * frames <= sample_count,
                ch > 0,
                spp > 0,
        ;
    }
}

/// What became of a received datagram.
#[derive(Debug, Clone, Copy, PartialEq, Eq, Structural)]
pub enum PacketOutcome {
    /// Not an RTP version 2 packet, or from a source that is filtered out.
    /// The receiver is unchanged.
    Rejected,
    /// The payload was queued. `lost` is the number of packets missing
    /// before this one when that number is between 1 and 99, else zero.
    Accepted { sequence: u16, lost: u16, samples: usize },
}

/// Packets missing between the packet numbered `last` and the packet
/// numbered `sequence`, as far as it is worth a report: a gap of 1 to 99.
/// A larger gap is a restart or a wrap, and `last == 0` stands for "no
/// packet seen yet".
pub open spec fn reported_loss(last: u16, sequence: u16) -> int {
    let expected = (last + 1) % 65536;
    let gap = (sequence - expected) % 65536;
    if last != 0 && 0 < gap < 100 {
        gap
    } else {
        0
    }
}

/// Receiving side of one RTP stream: the source filter, the last sequence
/// number seen and the queue of decoded samples.
pub struct RtpReceiver {
    multicast_addr: Ipv4Addr,
    port: u16,
    format: Aes67Format,
    jitter_buffer: JitterBuffer<i32>,
    last_sequence: u16,
    expected_ssrc: Option<u32>,
}

impl RtpReceiver {
    pub closed spec fn wf(&self) -> bool {
        self.jitter_buffer.wf() && self.jitter_buffer.silence() == 0
    }

    /// Group address and port that the stream arrives on.
    pub closed spec fn source(&self) -> (Ipv4Addr, u16) {
        (self.multicast_addr, self.port)
    }

    pub closed spec fn stream_format(&self) -> Aes67Format {
        self.format
    }

    /// Decoded samples waiting to be read, oldest first.
    pub closed spec fn queued(&self) -> Seq<i32> {
        self.jitter_buffer@
    }

    /// Slots in the sample queue; it holds one sample less.
    pub closed spec fn capacity(&self) -> nat {
        self.jitter_buffer.capacity()
    }

    /// Sequence number of the last packet accepted, zero before the first.
    pub closed spec fn last_seen(&self) -> u16 {
        self.last_sequence
    }

    /// The only source that packets are accepted from, if one is set.
    pub closed spec fn filter(&self) -> Option<u32> {
        self.expected_ssrc
    }

    /// Whether a packet with header `h` passes the source filter.
    pub open spec fn admits(&self, h: RtpHeader) -> bool {
        match self.filter() {
            Some(id) => h.ssrc == id,
            None => true,
        }
    }

    /// Whether `self` differs from `before` at most in the queue and the
    /// last sequence number.
    pub open spec fn same_stream(&self, before: &Self) -> bool {
        &&& self.wf()
        &&& self.source() == before.source()
        &&& self.stream_format() == before.stream_format()
        &&& self.capacity() == before.capacity()
        &&& self.filter() == before.filter()
    }

    /// A receiver that accepts any source, with an empty queue of four
    /// packets' length.
    pub fn new(multicast_addr: Ipv4Addr, port: u16, format: Aes67Format) -> (r: Self)
        requires
            format.samples_per_packet > 0,
        ensures
            r.wf(),
            r.source() == (multicast_addr, port),
            r.stream_format() == format,
            r.capacity() == format.samples_per_packet * 4,
            r.queued() == Seq::<i32>::empty(),
            r.last_seen() == 0,
            r.filter() == None::<u32>,
    {
        RtpReceiver {
            multicast_addr,
            port,
            format,
            jitter_buffer: JitterBuffer::new(format.samples_per_packet as usize * 4, 0),
            last_sequence: 0,
            expected_ssrc: None,
        }
    }

    /// Accept packets from `ssrc` only.
    pub fn set_expected_ssrc(&mut self, ssrc: u32)
        requires
            old(self).wf(),
        ensures
            final(self).wf(),
            final(self).source() == old(self).source(),
            final(self).stream_format() == old(self).stream_format(),
            final(self).capacity() == old(self).capacity(),
            final(self).queued() == old(self).queued(),
            final(self).last_seen() == old(self).last_seen(),
            final(self).filter() == Some(ssrc),
    {
        self.expected_ssrc = Some(ssrc);
    }

    pub fn multicast_addr(&self) -> (ip: Ipv4Addr)
        ensures
            ip == self.source().0,
    {
        self.multicast_addr
    }

    pub fn port(&self) -> (p: u16)
        ensures
            p == self.source().1,
    {
        self.port
    }

    pub fn format(&self) -> (f: Aes67Format)
        ensures
            f == self.stream_format(),
    {
        self.format
    }

    /// Whether a receiver that was `before` is `self` after the datagram
    /// `data` with the outcome `outcome`. A packet that parses and passes
    /// the source filter has its payload decoded and queued and its
    /// sequence number remembered; any other leaves the receiver as it
    /// was.
    pub open spec fn received(&self, before: &Self, data: Seq<u8>, outcome: PacketOutcome) -> bool {
        &&& self.same_stream(before)
        &&& match parse_header(data) {
            Some(h) if before.admits(h) => {
                &&& outcome == (PacketOutcome::Accepted {
                    sequence: h.sequence,
                    lost: reported_loss(before.last_seen(), h.sequence) as u16,
                    samples: ((data.len() - 12) / 3) as usize,
                })
                &&& self.last_seen() == h.sequence
                &&& self.queued() == keep_last(
                    before.queued() + l24_samples(data.skip(12)),
                    before.capacity() - 1,
                )
            },
            _ => {
                &&& outcome == PacketOutcome::Rejected
                &&& self.last_seen() == before.last_seen()
                &&& self.queued() == before.queued()
            },
        }
    }

    /// Takes one datagram as it came off the socket.
    pub fn handle_packet(&mut self, data: &[u8]) -> (outcome: PacketOutcome)
        requires
            old(self).wf(),
        ensures
            final(self).received(old(self), data@, outcome),
    {
        let header = match RtpHeader::from_bytes(data) {
            Some(h) => h,
            None => {
                return PacketOutcome::Rejected;
            },
        };
        if let Some(expected) = self.expected_ssrc {
            if header.ssrc != expected {
                return PacketOutcome::Rejected;
            }
        }
        let last: u16 = self.last_sequence;
        self.last_sequence = header.sequence;
        let expected_seq: u16 = if last == u16::MAX {
            0
        } else {
            last + 1
        };
        let gap: u16 = if header.sequence >= expected_seq {
            header.sequence - expected_seq
        } else {
            (65536 - expected_seq as u32 + header.sequence as u32) as u16
        };
        let lost: u16 = if last != 0 && gap > 0 && gap < 100 {
            gap
        } else {
            0
        };
        let payload = vstd::slice::slice_subrange(data, 12, data.len());
        assert(payload@ =~= data@.skip(12));
        let samples = decode_l24(payload);
        self.jitter_buffer.push_samples(samples.as_slice());
        PacketOutcome::Accepted { sequence: header.sequence, lost, samples: samples.len() }
    }

    /// Fills `out` with the oldest queued samples and pads with zeros what
    /// the queue cannot supply. Returns how many samples were real.
    pub fn read(&mut self, out: &mut [i32]) -> (n: usize)
        requires
            old(self).wf(),
        ensures
            final(self).same_stream(old(self)),
            final(self).last_seen() == old(self).last_seen(),
            n == if old(out)@.len() <= old(self).queued().len() {
                old(out)@.len()
            } else {
                old(self).queued().len()
            },
            final(out)@ == padded_front(old(self).queued(), old(out)@.len() as int, 0i32),
            final(self).queued() == old(self).queued().skip(n as int),
    {
        self.jitter_buffer.pop_samples(out)
    }

    /// Whether any sample waits to be read.
    pub fn is_receiving(&self) -> (b: bool)
        requires
            self.wf(),
        ensures
            b == (self.queued().len() > 0),
    {
        self.jitter_buffer.available() > 0
    }
}

} // verus!
