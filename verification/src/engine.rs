//! The parts of the audio engine that are no device I/O: the sample queue
//! between the input and the output callback, the frame copy of the
//! callback, and the decision which stream a subscription connects to.

use crate::backend::{
    Aes67Backend, Aes67Config, ConnectError, DeviceRecord, NetworkDevice, NetworkDeviceType,
};
use crate::jitter::padded_front;
use crate::net::{dotted, dotted_quad, lemma_dotted_roundtrip, Ipv4Addr};
use crate::rtp::PacketOutcome;
use crate::sap::records;
use crate::sdp::{Aes67Stream, StreamRecord};
use crate::text::{ascii, ascii_bytes, lossy_text, push_bytes, same_bytes, text_of};
use vstd::prelude::*;
use vstd::string::*;

verus! {

/// Sample rate of the engine unless configured otherwise.
pub const DEFAULT_SAMPLE_RATE: u32 = 48000;

/// Frames per device buffer unless configured otherwise.
pub const DEFAULT_BUFFER_SIZE: usize = 256;

/// Where the engine takes its input from.
#[derive(Debug, Clone, Copy, PartialEq, Eq, Structural)]
pub enum AudioSource {
    /// The local sound card.
    Local,
    /// An AES67 stream from the network.
    Aes67,
}

/// A sound device of the host.
#[derive(Debug, Clone)]
pub struct AudioDeviceInfo {
    pub name: String,
    pub is_input: bool,
    pub is_output: bool,
    pub is_default: bool,
}

/// What a client learns of a subscription that succeeded.
#[derive(Debug, Clone)]
pub struct Aes67SubscribeResult {
    pub stream_id: String,
    pub stream_name: String,
    pub channels: u8,
    pub start_channel: u32,
}

/// Why a subscription cannot be made.
#[derive(Debug, Clone, Copy, PartialEq, Eq, Structural)]
pub enum SubscribeError {
    /// The AES67 transport was not set up.
    NotInitialized,
    /// No discovered stream has the session asked for.
    NotFound,
    /// The stream was found but could not be connected to.
    ConnectionFailed(ConnectError),
}

/// The words for a failed subscription to the session `stream_id`, as
/// bytes.
pub open spec fn failure_text(e: SubscribeError, stream_id: Seq<u8>) -> Seq<u8> {
    match e {
        SubscribeError::NotInitialized => ascii("AES67 not initialized"@),
        SubscribeError::NotFound => ascii("Stream '"@) + stream_id + ascii("' not found"@),
        SubscribeError::ConnectionFailed(ConnectError::NoMulticastGroup) => ascii(
            "Connection failed: Device has no multicast group"@,
        ),
        SubscribeError::ConnectionFailed(ConnectError::InvalidAddress) => ascii(
            "Connection failed: Invalid multicast address"@,
        ),
    }
}

/// Puts a failed subscription to the session `stream_id` into words for
/// the client.
pub fn describe_failure(e: SubscribeError, stream_id: &str) -> (text: String)
    ensures
        text@ == lossy_text(failure_text(e, stream_id.spec_bytes())),
{
    proof {
        reveal_strlit("AES67 not initialized");
        reveal_strlit("Stream '");
        reveal_strlit("' not found");
        reveal_strlit("Connection failed: Device has no multicast group");
        reveal_strlit("Connection failed: Invalid multicast address");
    }
    let mut out: Vec<u8> = Vec::new();
    match e {
        SubscribeError::NotInitialized => {
            push_bytes(&mut out, ascii_bytes("AES67 not initialized"));
        },
        SubscribeError::NotFound => {
            push_bytes(&mut out, ascii_bytes("Stream '"));
            push_bytes(&mut out, stream_id.as_bytes());
            push_bytes(&mut out, ascii_bytes("' not found"));
        },
        SubscribeError::ConnectionFailed(ConnectError::NoMulticastGroup) => {
            push_bytes(
                &mut out,
                ascii_bytes("Connection failed: Device has no multicast group"),
            );
        },
        SubscribeError::ConnectionFailed(ConnectError::InvalidAddress) => {
            push_bytes(&mut out, ascii_bytes("Connection failed: Invalid multicast address"));
        },
    }
    assert(out@ =~= failure_text(e, stream_id.spec_bytes()));
    text_of(out.as_slice())
}

/// The index of the first stream whose session is spelled `id`, or the
/// number of streams if there is none.
pub open spec fn stream_index(streams: Seq<StreamRecord>, id: Seq<u8>) -> int {
    crate::sap::find_session(streams, id, 0)
}

/// The device that a subscription to `s` connects to: the stream as a
/// transmitter.
pub open spec fn source_device(s: StreamRecord) -> DeviceRecord {
    DeviceRecord {
        id: s.session_id,
        name: s.name,
        device_type: NetworkDeviceType::Transmitter,
        channels: s.channels as u32,
        sample_rate: s.sample_rate,
        ip_address: Some(s.origin),
        multicast_group: Some(dotted(s.multicast_addr)),
    }
}

/// Decides what a subscription to the session `stream_id` connects to:
/// the first discovered stream of that session, mapped to the local
/// channels from `start_channel` on, or from channel 0 where none is
/// given. `streams` is `None` while the AES67 transport is not set up.
pub fn plan_subscription(
    streams: Option<&Vec<Aes67Stream>>,
    stream_id: &str,
    start_channel: Option<u32>,
) -> (r: Result<(NetworkDevice, Aes67SubscribeResult), SubscribeError>)
    ensures
        match streams {
            None => r == Err::<(NetworkDevice, Aes67SubscribeResult), SubscribeError>(
                SubscribeError::NotInitialized,
            ),
            Some(list) => {
                let k = stream_index(records(list@), stream_id.spec_bytes());
                if k < list@.len() {
                    &&& r.is_ok()
                    &&& r.unwrap().0@ == source_device(list@[k]@)
                    &&& r.unwrap().1.stream_id@ == lossy_text(list@[k]@.session_id)
                    &&& r.unwrap().1.stream_name@ == lossy_text(list@[k]@.name)
                    &&& r.unwrap().1.channels == list@[k]@.channels
                    &&& r.unwrap().1.start_channel == match start_channel {
                        Some(c) => c,
                        None => 0,
                    }
                } else {
                    r == Err::<(NetworkDevice, Aes67SubscribeResult), SubscribeError>(
                        SubscribeError::NotFound,
                    )
                }
            },
        },
{
    let list = match streams {
        Some(list) => list,
        None => {
            return Err(SubscribeError::NotInitialized);
        },
    };
    let id = stream_id.as_bytes();
    let mut i: usize = 0;
    while i < list.len() && !same_bytes(list[i].session_id.as_slice(), id)
        invariant
            i <= list@.len(),
            id@ == stream_id.spec_bytes(),
            stream_index(records(list@), id@) == crate::sap::find_session(
                records(list@),
                id@,
                i as int,
            ),
        decreases list@.len() - i,
    {
        i = i + 1;
    }
    if i >= list.len() {
        return Err(SubscribeError::NotFound);
    }
    let stream = &list[i];
    let device = NetworkDevice {
        id: stream.session_id.clone(),
        name: stream.name.clone(),
        device_type: NetworkDeviceType::Transmitter,
        channels: stream.channels as u32,
        sample_rate: stream.sample_rate,
        ip_address: Some(stream.origin.clone()),
        multicast_group: Some(stream.multicast_addr.to_bytes()),
    };
    let result = Aes67SubscribeResult {
        stream_id: text_of(stream.session_id.as_slice()),
        stream_name: text_of(stream.name.as_slice()),
        channels: stream.channels,
        start_channel: match start_channel {
            Some(c) => c,
            None => 0,
        },
    };
    Ok((device, result))
}

/// The frame layout of a callback: how many frames the input holds and
/// how many samples a frame of the output has.
pub open spec fn frame_count(input_len: int, channels: int) -> int {
    input_len / channels
}

pub open spec fn output_stride(output_len: int, frames: int) -> int {
    output_len / frames
}

/// What the pass-through callback leaves in the output: the sample of
/// channel `ch` of frame `f` of the input at channel `ch` of frame `f` of
/// the output, for the channels that both have; every other sample as it
/// was.
pub open spec fn passed_through<T>(
    input: Seq<T>,
    before: Seq<T>,
    channels: int,
) -> Seq<T> {
    let frames = frame_count(input.len() as int, channels);
    if frames <= 0 {
        before
    } else {
        let stride = output_stride(before.len() as int, frames);
        let shared = if channels < stride { channels } else { stride };
        Seq::new(
            before.len(),
            |i: int|
                if stride > 0 && i / stride < frames && i % stride < shared {
                    input[(i / stride) * channels + i % stride]
                } else {
                    before[i]
                },
        )
    }
}

/// Copies the input of one callback to its output, frame by frame. The
/// input holds frames of `channels` samples; the output is taken to hold
/// as many frames, of whatever width its length allows.
pub fn audio_callback<T: Copy>(input: &[T], output: &mut [T], channels: usize)
    requires
        channels > 0,
    ensures
        final(output)@ == passed_through(input@, old(output)@, channels as int),
{
    let frames: usize = input.len() / channels;
    if frames == 0 {
        return;
    }
    let out_len: usize = output.len();
    let stride: usize = out_len / frames;
    let shared: usize = if channels < stride { channels } else { stride };
    let ghost before = output@;
    let ghost want = passed_through(input@, before, channels as int);
    if stride == 0 {
        assert(output@ =~= want);
        return;
    }
    let mut f: usize = 0;
    while f < frames
        invariant
            f <= frames,
            frames == input@.len() as int / channels as int,
            input@.len() <= usize::MAX,
            frames > 0,
            channels > 0,
            stride == out_len / frames,
            stride > 0,
            shared == (if channels < stride { channels } else { stride }),
            out_len == before.len(),
            output@.len() == out_len,
            want == passed_through(input@, before, channels as int),
            forall|i: int|
                0 <= i < out_len ==> #[trigger] output@[i] == if i / (stride as int) < f {
                    want[i]
                } else {
                    before[i]
                },
        decreases frames - f,
    {
        let ghost row = output@;
        proof {
            lemma_frame_fits(f as int, frames as int, channels as int, input@.len() as int);
            lemma_frame_fits(f as int, frames as int, stride as int, out_len as int);
        }
        let mut ch: usize = 0;
        while ch < shared
            invariant
                ch <= shared,
                f < frames,
                shared <= channels,
                shared <= stride,
                stride > 0,
                f * channels + channels <= input@.len() <= usize::MAX,
                f * stride + stride <= out_len,
                output@.len() == out_len,
                out_len == before.len(),
                want == passed_through(input@, before, channels as int),
                frames == input@.len() as int / channels as int,
                stride == out_len / frames,
                shared == (if channels < stride { channels } else { stride }),
                forall|i: int|
                    0 <= i < out_len ==> #[trigger] output@[i] == if i / (stride as int) < f || (i
                        / (stride as int) == f && i % (stride as int) < ch) {
                        want[i]
                    } else {
                        before[i]
                    },
            decreases shared - ch,
        {
            let ghost prev = output@;
            assert(0 <= f * channels) by (nonlinear_arith)
                requires
                    0 <= f,
                    0 < channels,
            ;
            assert(0 <= f * stride) by (nonlinear_arith)
                requires
                    0 <= f,
                    0 < stride,
            ;
            let in_idx: usize = f * channels + ch;
            let out_idx: usize = f * stride + ch;
            proof {
                lemma_cell_index(f as int, ch as int, stride as int);
                assert(want[out_idx as int] == input@[in_idx as int]);
            }
            output[out_idx] = input[in_idx];
            assert forall|i: int| 0 <= i < out_len implies #[trigger] output@[i] == if i / (
            stride as int) < f || (i / (stride as int) == f && i % (stride as int) < ch + 1) {
                want[i]
            } else {
                before[i]
            } by {
                if i == out_idx as int {
                } else {
                    assert(output@[i] == prev[i]);
                    if i / (stride as int) == f && i % (stride as int) == ch as int {
                        vstd::arithmetic::div_mod::lemma_fundamental_div_mod(i, stride as int);
                        assert(stride * f == f * stride) by (nonlinear_arith);
                    }
                }
            }
            ch = ch + 1;
        }
        assert forall|i: int| 0 <= i < out_len implies #[trigger] output@[i] == if i / (
        stride as int) < f + 1 {
            want[i]
        } else {
            before[i]
        } by {
            if i / (stride as int) == f && i % (stride as int) >= shared {
                assert(want[i] == before[i]);
            }
        }
        f = f + 1;
    }
    assert forall|i: int| 0 <= i < out_len implies #[trigger] output@[i] == want[i] by {
        if i / (stride as int) >= frames {
            assert(want[i] == before[i]);
        }
    }
    assert(output@ =~= want);
}

/// Frame `f` of `frames` frames of width `w` lies within a buffer that
/// holds them all.
proof fn lemma_frame_fits(f: int, frames: int, w: int, len: int)
    requires
        0 <= f < frames,
        w > 0,
        len >= 0,
        frames == len / w || w == len / frames,
    ensures
        f * w + w <= len,
{
    if frames == len / w {
        vstd::arithmetic::div_mod::lemma_fundamental_div_mod(len, w);
        assert(f * w + w <= len) by (nonlinear_arith)
            requires
                0 <= f < frames,
                w > 0,
                len == w * frames + len % w,
                0 <= len % w,
        ;
    } else {
        vstd::arithmetic::div_mod::lemma_fundamental_div_mod(len, frames);
        assert(f * w + w <= len) by (nonlinear_arith)
            requires
                0 <= f < frames,
                w > 0,
                len == frames * w + len % frames,
                0 <= len % frames,
        ;
    }
}

/// The sample of channel `ch` of frame `f` in a buffer of stride `w` has
/// the index `f * w + ch`, and that index names the frame and the channel.
proof fn lemma_cell_index(f: int, ch: int, w: int)
    requires
        0 <= f,
        0 <= ch < w,
    ensures
        (f * w + ch) / w == f,
        (f * w + ch) % w == ch,
{
    vstd::arithmetic::div_mod::lemma_fundamental_div_mod_converse(f * w + ch, w, f, ch);
}

/// The sample queue between the input callback and the output callback:
/// a bounded first-in-first-out queue over a ring of slots. A full queue
/// turns a sample away; an empty one has none to give.
pub struct RingBuffer<T> {
    buffer: Vec<T>,
    read_pos: usize,
    len: usize,
}

impl<T: Copy> RingBuffer<T> {
    pub closed spec fn wf(&self) -> bool {
        &&& self.buffer@.len() > 0
        &&& self.read_pos < self.buffer@.len()
        &&& self.len <= self.buffer@.len()
    }

    /// Number of samples that the queue can hold.
    pub closed spec fn capacity(&self) -> nat {
        self.buffer@.len()
    }

    /// The queued samples, oldest first.
    pub closed spec fn view(&self) -> Seq<T> {
        Seq::new(
            self.len as nat,
            |i: int| self.buffer@[(self.read_pos as int + i) % (self.buffer@.len() as int)],
        )
    }

    /// An empty queue for `capacity` samples. The slots are filled with
    /// `fill` until samples take their place.
    pub fn new(capacity: usize, fill: T) -> (q: Self)
        requires
            capacity > 0,
        ensures
            q.wf(),
            q.capacity() == capacity,
            q@ == Seq::<T>::empty(),
    {
        let mut buffer: Vec<T> = Vec::with_capacity(capacity);
        let mut i: usize = 0;
        while i < capacity
            invariant
                i <= capacity,
                buffer@.len() == i,
            decreases capacity - i,
        {
            buffer.push(fill);
            i = i + 1;
        }
        let q = RingBuffer { buffer, read_pos: 0, len: 0 };
        assert(q@ =~= Seq::<T>::empty());
        q
    }

    /// Number of queued samples.
    pub fn len(&self) -> (n: usize)
        requires
            self.wf(),
        ensures
            n == self@.len(),
            n <= self.capacity(),
    {
        self.len
    }

    /// Queues `value` behind the queued samples. Returns `false`, and
    /// drops the sample, when the queue is full.
    pub fn try_push(&mut self, value: T) -> (ok: bool)
        requires
            old(self).wf(),
        ensures
            final(self).wf(),
            final(self).capacity() == old(self).capacity(),
            ok == (old(self)@.len() < old(self).capacity()),
            final(self)@ == if ok {
                old(self)@.push(value)
            } else {
                old(self)@
            },
    {
        let cap: usize = self.buffer.len();
        if self.len == cap {
            return false;
        }
        let ghost before = *self;
        let room: usize = cap - self.read_pos;
        let pos: usize = if self.len < room {
            self.read_pos + self.len
        } else {
            self.len - room
        };
        proof {
            let c = cap as int;
            let r = self.read_pos as int;
            let n = self.len as int;
            if n < c - r {
                vstd::arithmetic::div_mod::lemma_small_mod((r + n) as nat, c as nat);
            } else {
                vstd::arithmetic::div_mod::lemma_mod_add_multiples_vanish(r + n - c, c);
                vstd::arithmetic::div_mod::lemma_small_mod((r + n - c) as nat, c as nat);
            }
            assert((r + n) % c == pos);
        }
        self.buffer.set(pos, value);
        self.len = self.len + 1;
        proof {
            let c = cap as int;
            let r = self.read_pos as int;
            let n = before.len as int;
            assert forall|i: int| 0 <= i < n implies self@[i] == before@[i] by {
                lemma_ring_distinct(r, i, n, c);
            }
            assert(self@ =~= before@.push(value));
        }
        true
    }

    /// Takes the oldest sample off the queue. `None` when the queue is
    /// empty.
    pub fn try_pop(&mut self) -> (r: Option<T>)
        requires
            old(self).wf(),
        ensures
            final(self).wf(),
            final(self).capacity() == old(self).capacity(),
            r == if old(self)@.len() > 0 {
                Some(old(self)@[0])
            } else {
                None
            },
            final(self)@ == if old(self)@.len() > 0 {
                old(self)@.drop_first()
            } else {
                old(self)@
            },
    {
        if self.len == 0 {
            return None;
        }
        let ghost before = *self;
        let cap: usize = self.buffer.len();
        let value = self.buffer[self.read_pos];
        proof {
            vstd::arithmetic::div_mod::lemma_small_mod(self.read_pos as nat, cap as nat);
        }
        self.read_pos = if self.read_pos + 1 == cap {
            0
        } else {
            self.read_pos + 1
        };
        self.len = self.len - 1;
        proof {
            let c = cap as int;
            let r = before.read_pos as int;
            assert forall|i: int| 0 <= i < self.len implies self@[i] == before@.drop_first()[i] by {
                let nr = self.read_pos as int;
                if r + 1 == c {
                    vstd::arithmetic::div_mod::lemma_mod_add_multiples_vanish(i, c);
                    assert((nr + i) % c == (r + 1 + i) % c);
                }
            }
            assert(self@ =~= before@.drop_first());
        }
        Some(value)
    }
}

impl<T: Copy> RingBuffer<T> {
    /// Queues the samples of `samples` in order, as many as the queue has
    /// room for, and drops the rest. Returns how many were queued.
    pub fn push_all(&mut self, samples: &[T]) -> (n: usize)
        requires
            old(self).wf(),
        ensures
            final(self).wf(),
            final(self).capacity() == old(self).capacity(),
            n == if samples@.len() <= old(self).capacity() - old(self)@.len() {
                samples@.len() as int
            } else {
                old(self).capacity() - old(self)@.len()
            },
            final(self)@ == old(self)@ + samples@.take(n as int),
    {
        let ghost before = self@;
        let ghost cap = self.capacity();
        let mut n: usize = 0;
        let mut i: usize = 0;
        assert(before + samples@.take(0) =~= before);
        while i < samples.len()
            invariant
                i <= samples@.len(),
                n <= i,
                self.wf(),
                self.capacity() == cap,
                before.len() <= cap,
                self@ == before + samples@.take(n as int),
                n < i ==> self@.len() == cap,
            decreases samples@.len() - i,
        {
            let ghost prev = self@;
            if self.try_push(samples[i]) {
                assert(n == i);
                assert(prev.push(samples@[i as int]) =~= before + samples@.take(n as int + 1));
                n = n + 1;
            }
            i = i + 1;
        }
        n
    }

    /// Fills `out` with the oldest queued samples and pads with `silence`
    /// what the queue cannot supply. Returns how many samples were real.
    pub fn pop_into(&mut self, out: &mut [T], silence: T) -> (n: usize)
        requires
            old(self).wf(),
        ensures
            final(self).wf(),
            final(self).capacity() == old(self).capacity(),
            n == if old(out)@.len() <= old(self)@.len() {
                old(out)@.len()
            } else {
                old(self)@.len()
            },
            final(out)@ == padded_front(old(self)@, old(out)@.len() as int, silence),
            final(self)@ == old(self)@.skip(n as int),
    {
        let ghost before = self@;
        let ghost cap = self.capacity();
        let len: usize = out.len();
        let mut n: usize = 0;
        let mut i: usize = 0;
        assert(before.skip(0) =~= before);
        while i < len
            invariant
                i <= len,
                len == out@.len(),
                n <= i,
                n <= before.len(),
                self.wf(),
                self.capacity() == cap,
                self@ == before.skip(n as int),
                n < i ==> n == before.len(),
                forall|k: int| 0 <= k < i ==> out@[k] == if k < before.len() {
                    before[k]
                } else {
                    silence
                },
            decreases len - i,
        {
            match self.try_pop() {
                Some(v) => {
                    assert(n == i);
                    assert(before.skip(n as int).drop_first() =~= before.skip(n as int + 1));
                    out[i] = v;
                    n = n + 1;
                },
                None => {
                    out[i] = silence;
                },
            }
            i = i + 1;
        }
        assert(out@ =~= padded_front(before, len as int, silence));
        n
    }
}

/// Two queued samples at different places of the queue lie in different
/// slots of the ring.
proof fn lemma_ring_distinct(r: int, i: int, n: int, c: int)
    requires
        0 <= r < c,
        0 <= i < n,
        n < c,
    ensures
        (r + i) % c != (r + n) % c,
{
    let a = r + i;
    let b = r + n;
    if a < c {
        vstd::arithmetic::div_mod::lemma_small_mod(a as nat, c as nat);
    } else {
        vstd::arithmetic::div_mod::lemma_mod_add_multiples_vanish(a - c, c);
        vstd::arithmetic::div_mod::lemma_small_mod((a - c) as nat, c as nat);
    }
    if b < c {
        vstd::arithmetic::div_mod::lemma_small_mod(b as nat, c as nat);
    } else {
        vstd::arithmetic::div_mod::lemma_mod_add_multiples_vanish(b - c, c);
        vstd::arithmetic::div_mod::lemma_small_mod((b - c) as nat, c as nat);
    }
}

/// The queue between the two callbacks of the engine.
pub fn create_ring_buffer<T: Copy>(capacity: usize, fill: T) -> (q: RingBuffer<T>)
    requires
        capacity > 0,
    ensures
        q.wf(),
        q.capacity() == capacity,
        q@ == Seq::<T>::empty(),
{
    RingBuffer::new(capacity, fill)
}

/// The state of the audio engine: its settings, whether it runs, where it
/// takes its input from, and the AES67 transport once that is set up. The
/// devices themselves are with the owner of the engine.
pub struct AudioEngine {
    sample_rate: u32,
    buffer_size: usize,
    running: bool,
    aes67_backend: Option<Aes67Backend>,
    audio_source: AudioSource,
}

impl AudioEngine {
    pub closed spec fn wf(&self) -> bool {
        match self.aes67_backend {
            Some(b) => b.wf(),
            None => true,
        }
    }

    pub closed spec fn rate(&self) -> u32 {
        self.sample_rate
    }

    pub closed spec fn frames_per_buffer(&self) -> usize {
        self.buffer_size
    }

    pub closed spec fn running(&self) -> bool {
        self.running
    }

    /// The transport, once it is set up.
    pub closed spec fn transport(&self) -> Option<Aes67Backend> {
        self.aes67_backend
    }

    pub closed spec fn source(&self) -> AudioSource {
        self.audio_source
    }

    /// Whether `self` is `before` but for its transport and its source.
    pub open spec fn same_settings(&self, before: &Self) -> bool {
        &&& self.wf()
        &&& self.rate() == before.rate()
        &&& self.frames_per_buffer() == before.frames_per_buffer()
        &&& self.running() == before.running()
    }

    /// An engine that does not run, takes its input from the local
    /// devices and has no transport.
    pub fn new(sample_rate: u32, buffer_size: usize) -> (e: Self)
        ensures
            e.wf(),
            e.rate() == sample_rate,
            e.frames_per_buffer() == buffer_size,
            !e.running(),
            e.transport().is_none(),
            e.source() == AudioSource::Local,
    {
        AudioEngine {
            sample_rate,
            buffer_size,
            running: false,
            aes67_backend: None,
            audio_source: AudioSource::Local,
        }
    }

    pub fn sample_rate(&self) -> (r: u32)
        ensures
            r == self.rate(),
    {
        self.sample_rate
    }

    pub fn buffer_size(&self) -> (n: usize)
        ensures
            n == self.frames_per_buffer(),
    {
        self.buffer_size
    }

    pub fn is_running(&self) -> (b: bool)
        ensures
            b == self.running(),
    {
        self.running
    }

    /// Capacity of the queue between the two callbacks: four buffers, or
    /// as much of that as can be counted.
    pub fn ring_capacity(&self) -> (n: usize)
        ensures
            n == if self.frames_per_buffer() * 4 <= usize::MAX {
                self.frames_per_buffer() * 4
            } else {
                usize::MAX as int
            },
    {
        if self.buffer_size <= usize::MAX / 4 {
            self.buffer_size * 4
        } else {
            usize::MAX
        }
    }

    /// Notes that the device streams run.
    pub fn start(&mut self)
        requires
            old(self).wf(),
        ensures
            final(self).wf(),
            final(self).running(),
            final(self).rate() == old(self).rate(),
            final(self).frames_per_buffer() == old(self).frames_per_buffer(),
            final(self).transport() == old(self).transport(),
            final(self).source() == old(self).source(),
    {
        self.running = true;
    }

    /// Notes that the device streams were let go of.
    pub fn stop(&mut self)
        requires
            old(self).wf(),
        ensures
            final(self).wf(),
            !final(self).running(),
            final(self).rate() == old(self).rate(),
            final(self).frames_per_buffer() == old(self).frames_per_buffer(),
            final(self).transport() == old(self).transport(),
            final(self).source() == old(self).source(),
    {
        self.running = false;
    }

    /// Sets up the AES67 transport with `config`, or with the default
    /// settings where none is given, and returns the stream to announce.
    /// `local_ip` is the address of this host as a dotted quad; without
    /// one the stream is announced from `0.0.0.0`. The transport is new:
    /// a stream that was connected before is let go of.
    pub fn init_aes67(&mut self, config: Option<Aes67Config>, local_ip: Option<Vec<u8>>) -> (stream:
        Aes67Stream)
        requires
            old(self).wf(),
        ensures
            final(self).same_settings(old(self)),
            final(self).source() == old(self).source(),
            final(self).transport() matches Some(b) && {
                &&& match config {
                    Some(c) => b.settings() == c,
                    None => b.settings().is_default(),
                }
                &&& b.announces(
                    match local_ip {
                        Some(ip) => Some(ip@),
                        None => None,
                    },
                    stream@,
                )
                &&& !b.connected()
                &&& b.device().is_none()
                &&& b.receiver().is_none()
            },
    {
        let mut backend = match config {
            Some(c) => Aes67Backend::with_config(c),
            None => Aes67Backend::new(),
        };
        let stream = backend.init(local_ip);
        self.aes67_backend = Some(backend);
        stream
    }

    pub fn set_audio_source(&mut self, source: AudioSource)
        requires
            old(self).wf(),
        ensures
            final(self).same_settings(old(self)),
            final(self).transport() == old(self).transport(),
            final(self).source() == source,
    {
        self.audio_source = source;
    }

    pub fn audio_source(&self) -> (s: AudioSource)
        ensures
            s == self.source(),
    {
        self.audio_source
    }

    pub fn aes67_backend(&self) -> (b: Option<&Aes67Backend>)
        ensures
            match b {
                Some(x) => self.transport() == Some(*x),
                None => self.transport().is_none(),
            },
    {
        self.aes67_backend.as_ref()
    }

    /// Whether `self` is `before` with nothing changed but what the
    /// receiver of its transport holds.
    pub open spec fn same_but_receiver(&self, before: &Self) -> bool {
        &&& self.same_settings(before)
        &&& self.source() == before.source()
        &&& match (before.transport(), self.transport()) {
            (Some(b), Some(a)) => a.same_but_receiver(&b),
            (None, None) => true,
            _ => false,
        }
    }

    /// Connects the transport to the stream of `device`, with a fresh
    /// receiver for its group on port 5004, and takes the input from the
    /// network. Without a transport, or with a device that names no group
    /// that can be read, nothing changes.
    pub fn connect_aes67(&mut self, device: &NetworkDevice) -> (r: Result<(), SubscribeError>)
        requires
            old(self).wf(),
        ensures
            final(self).same_settings(old(self)),
            match old(self).transport() {
                None => r == Err::<(), SubscribeError>(SubscribeError::NotInitialized) && final(self).transport().is_none() && final(self).source() == old(self).source(),
                Some(before) => final(self).transport() matches Some(b) && {
                    &&& b.settings() == before.settings()
                    &&& b.sender() == before.sender()
                    &&& b.announced() == before.announced()
                    &&& match device@.multicast_group {
                        None => r == Err::<(), SubscribeError>(
                            SubscribeError::ConnectionFailed(ConnectError::NoMulticastGroup),
                        ),
                        Some(group) => match dotted_quad(group) {
                            None => r == Err::<(), SubscribeError>(
                                SubscribeError::ConnectionFailed(ConnectError::InvalidAddress),
                            ),
                            Some(ip) => r.is_ok() && b.connected_to(device@, ip) && final(self).source() == AudioSource::Aes67,
                        },
                    }
                    &&& r.is_err() ==> final(self).source() == old(self).source() && b.connected()
                        == before.connected() && b.device() == before.device() && b.receiver()
                        == before.receiver()
                },
            },
    {
        match &mut self.aes67_backend {
            Some(backend) => match backend.connect(device) {
                Ok(_) => {
                    self.audio_source = AudioSource::Aes67;
                    Ok(())
                },
                Err(e) => Err(SubscribeError::ConnectionFailed(e)),
            },
            None => Err(SubscribeError::NotInitialized),
        }
    }

    /// Lets go of the connected stream and takes the input from the
    /// local devices. Without a transport nothing changes.
    pub fn disconnect_aes67(&mut self)
        requires
            old(self).wf(),
        ensures
            final(self).same_settings(old(self)),
            match old(self).transport() {
                Some(_) => final(self).transport() matches Some(b) && !b.connected() && final(self).source() == AudioSource::Local,
                None => final(self).source() == old(self).source() && final(self).transport().is_none(),
            },
    {
        match &mut self.aes67_backend {
            Some(backend) => {
                backend.disconnect();
                self.audio_source = AudioSource::Local;
            },
            None => {},
        }
    }

    /// Subscribes to the session `stream_id` among the discovered
    /// `streams`: finds the first stream of that session, connects the
    /// transport to it with a fresh receiver for its group, and takes the
    /// input from the network. With a transport set up, a stream that is
    /// found is always connected to. Without a transport, or without such
    /// a stream, nothing changes.
    pub fn handle_subscribe_stream(
        &mut self,
        streams: &Vec<Aes67Stream>,
        stream_id: &str,
        start_channel: Option<u32>,
    ) -> (r: Result<Aes67SubscribeResult, SubscribeError>)
        requires
            old(self).wf(),
        ensures
            final(self).same_settings(old(self)),
            match old(self).transport() {
                None => r matches Err(SubscribeError::NotInitialized) && final(self).source()
                    == old(self).source() && final(self).transport().is_none(),
                Some(before) => {
                    let k = stream_index(records(streams@), stream_id.spec_bytes());
                    final(self).transport() matches Some(b) && {
                        &&& b.settings() == before.settings()
                        &&& b.sender() == before.sender()
                        &&& b.announced() == before.announced()
                        &&& if k < streams@.len() {
                            &&& r matches Ok(s) && {
                                &&& s.stream_id@ == lossy_text(streams@[k]@.session_id)
                                &&& s.stream_name@ == lossy_text(streams@[k]@.name)
                                &&& s.channels == streams@[k]@.channels
                                &&& s.start_channel == match start_channel {
                                    Some(c) => c,
                                    None => 0,
                                }
                            }
                            &&& final(self).source() == AudioSource::Aes67
                            &&& b.connected_to(
                                source_device(streams@[k]@),
                                streams@[k]@.multicast_addr,
                            )
                        } else {
                            &&& r matches Err(SubscribeError::NotFound)
                            &&& final(self).source() == old(self).source()
                            &&& b.connected() == before.connected()
                            &&& b.device() == before.device()
                            &&& b.receiver() == before.receiver()
                        }
                    }
                },
            },
    {
        if self.aes67_backend.is_none() {
            return Err(SubscribeError::NotInitialized);
        }
        let (device, result) = match plan_subscription(Some(streams), stream_id, start_channel) {
            Ok(plan) => plan,
            Err(e) => {
                return Err(e);
            },
        };
        proof {
            let k = stream_index(records(streams@), stream_id.spec_bytes());
            lemma_dotted_roundtrip(streams@[k]@.multicast_addr);
        }
        match self.connect_aes67(&device) {
            Ok(_) => Ok(result),
            Err(e) => Err(e),
        }
    }

    /// Takes a datagram of the connected stream. Without a transport or a
    /// connection it is dropped.
    pub fn handle_packet(&mut self, data: &[u8]) -> (outcome: PacketOutcome)
        requires
            old(self).wf(),
        ensures
            final(self).same_but_receiver(old(self)),
            match (old(self).transport(), final(self).transport()) {
                (Some(before), Some(b)) => b.took_packet(&before, data@, outcome),
                _ => outcome == PacketOutcome::Rejected,
            },
    {
        match &mut self.aes67_backend {
            Some(backend) => backend.handle_packet(data),
            None => PacketOutcome::Rejected,
        }
    }

    /// Fills `buffer` with samples of the connected stream, zeros where
    /// the stream has none to give, and returns how many samples were
    /// real. Without a transport or a connection the buffer is filled
    /// with zeros and its length is returned.
    pub fn read_samples(&mut self, buffer: &mut [i32]) -> (n: usize)
        requires
            old(self).wf(),
        ensures
            final(self).same_but_receiver(old(self)),
            final(buffer)@.len() == old(buffer)@.len(),
            match (old(self).transport(), final(self).transport()) {
                (Some(before), Some(b)) => b.gave_samples(&before, final(buffer)@, n),
                _ => n == old(buffer)@.len() && final(buffer)@ == Seq::new(
                    old(buffer)@.len(),
                    |i: int| 0i32,
                ),
            },
    {
        match &mut self.aes67_backend {
            Some(backend) => backend.read_samples(buffer),
            None => {
                let len = buffer.len();
                let mut i: usize = 0;
                while i < len
                    invariant
                        i <= len,
                        len == buffer@.len(),
                        forall|k: int| 0 <= k < i ==> buffer@[k] == 0i32,
                    decreases len - i,
                {
                    buffer[i] = 0;
                    i = i + 1;
                }
                assert(buffer@ =~= Seq::new(len as nat, |i: int| 0i32));
                len
            },
        }
    }

    /// Group and port of the stream that the transport is connected to:
    /// where its datagrams are to be read from.
    pub fn receiver_source(&self) -> (r: Option<(Ipv4Addr, u16)>)
        ensures
            match self.transport() {
                Some(b) => match b.receiver() {
                    Some(rx) => r == Some(rx.source()),
                    None => r.is_none(),
                },
                None => r.is_none(),
            },
    {
        match &self.aes67_backend {
            Some(backend) => backend.receiver_source(),
            None => None,
        }
    }

    /// Ends the subscription: lets go of the connected stream.
    pub fn handle_unsubscribe_stream(&mut self)
        requires
            old(self).wf(),
        ensures
            final(self).same_settings(old(self)),
            match old(self).transport() {
                Some(_) => final(self).transport() matches Some(b) && !b.connected() && final(self).source() == AudioSource::Local,
                None => final(self).source() == old(self).source() && final(self).transport().is_none(),
            },
    {
        self.disconnect_aes67();
    }
}

} // verus!
