//! Session descriptions of AES67 streams: the record that describes a
//! stream, the SDP text that announces it and the reader of such text.

use crate::net::{dotted, dotted_quad, Ipv4Addr};
use crate::text::{
    all_digits, ascii, ascii_bytes, contains, decimal_digits, digit_value, digits_value, field,
    field_at, first_word, has_part, has_prefix, is_digit, nth_word, parse_number, push_bytes,
    push_decimal, read_digits, read_number, scan, scan_to, split_word, starts_with, trim, trimmed,
    word_at, Stop,
};
use vstd::prelude::*;
use vstd::slice::slice_subrange;
use vstd::string::*;

verus! {

/// Which way a stream flows, seen from the host that describes it.
#[derive(Debug, Clone, Copy, PartialEq, Eq, Structural)]
pub enum StreamDirection {
    Send,
    Receive,
    SendReceive,
}

/// A stream as it was announced or is to be announced. Text is held as
/// bytes, as it stands on the wire.
#[derive(Debug, Clone)]
pub struct Aes67Stream {
    pub name: Vec<u8>,
    /// Identifier of the session, unique among announcements.
    pub session_id: Vec<u8>,
    /// Host that the stream comes from.
    pub origin: Vec<u8>,
    pub multicast_addr: Ipv4Addr,
    pub port: u16,
    pub channels: u8,
    pub sample_rate: u32,
    pub bits_per_sample: u8,
    /// Packet time in microseconds.
    pub ptime_us: u32,
    pub direction: StreamDirection,
    /// The description that the record was read from, empty if none.
    pub sdp: Vec<u8>,
}

/// The mathematical value of an [`Aes67Stream`].
pub struct StreamRecord {
    pub name: Seq<u8>,
    pub session_id: Seq<u8>,
    pub origin: Seq<u8>,
    pub multicast_addr: Ipv4Addr,
    pub port: u16,
    pub channels: u8,
    pub sample_rate: u32,
    pub bits_per_sample: u8,
    pub ptime_us: u32,
    pub direction: StreamDirection,
    pub sdp: Seq<u8>,
}

impl View for Aes67Stream {
    type V = StreamRecord;

    open spec fn view(&self) -> StreamRecord {
        StreamRecord {
            name: self.name@,
            session_id: self.session_id@,
            origin: self.origin@,
            multicast_addr: self.multicast_addr,
            port: self.port,
            channels: self.channels,
            sample_rate: self.sample_rate,
            bits_per_sample: self.bits_per_sample,
            ptime_us: self.ptime_us,
            direction: self.direction,
            sdp: self.sdp@,
        }
    }
}

impl Aes67Stream {
    /// A copy of the record.
    pub fn duplicate(&self) -> (r: Self)
        ensures
            r@ == self@,
    {
        Aes67Stream {
            name: self.name.clone(),
            session_id: self.session_id.clone(),
            origin: self.origin.clone(),
            multicast_addr: self.multicast_addr,
            port: self.port,
            channels: self.channels,
            sample_rate: self.sample_rate,
            bits_per_sample: self.bits_per_sample,
            ptime_us: self.ptime_us,
            direction: self.direction,
            sdp: self.sdp.clone(),
        }
    }
}

/// What a reader assumes of a stream before the description says
/// otherwise: stereo L24 at 48 kHz on port 5004 in packets of one
/// millisecond, sent from `default_origin`.
pub open spec fn assumed(default_origin: Seq<u8>) -> StreamRecord {
    StreamRecord {
        name: Seq::empty(),
        session_id: Seq::empty(),
        origin: default_origin,
        multicast_addr: Ipv4Addr { a: 0, b: 0, c: 0, d: 0 },
        port: 5004,
        channels: 2,
        sample_rate: 48000,
        bits_per_sample: 24,
        ptime_us: 1000,
        direction: StreamDirection::Send,
        sdp: Seq::empty(),
    }
}

/// `o=<user> <sess-id> <sess-version> <nettype> <addrtype> <address>`:
/// with all six words there, the session is `<user>_<sess-id>` and the
/// origin is the address.
pub open spec fn with_origin(acc: StreamRecord, rest: Seq<u8>) -> StreamRecord {
    if nth_word(rest, 5).len() > 0 {
        StreamRecord {
            session_id: nth_word(rest, 0) + seq![95u8] + nth_word(rest, 1),
            origin: nth_word(rest, 5),
            ..acc
        }
    } else {
        acc
    }
}

/// `c=IN IP4 <address>/<ttl>`: the third word up to its first slash is
/// the group address, if it reads as one.
pub open spec fn with_connection(acc: StreamRecord, rest: Seq<u8>) -> StreamRecord {
    let word = nth_word(rest, 2);
    if word.len() > 0 {
        match dotted_quad(word.take(scan(word, 0, Stop::Byte(47)))) {
            Some(ip) => StreamRecord { multicast_addr: ip, ..acc },
            None => acc,
        }
    } else {
        acc
    }
}

/// `m=audio <port> ...`: the first word is the port; one that does not
/// read as a port stands for 5004.
pub open spec fn with_media(acc: StreamRecord, rest: Seq<u8>) -> StreamRecord {
    let word = first_word(rest);
    if word.len() > 0 {
        StreamRecord {
            port: match parse_number(word, 65535) {
                Some(p) => p as u16,
                None => 5004,
            },
            ..acc
        }
    } else {
        acc
    }
}

/// `a=rtpmap:<pt> L24/<rate>/<channels>`, or `L16`: the second and third
/// fields between slashes are the sample rate and the channel count; one
/// that does not read as a number stands for 48000 or 2.
pub open spec fn with_rtpmap(acc: StreamRecord, line: Seq<u8>) -> StreamRecord {
    if contains(line, ascii("L24/"@)) || contains(line, ascii("L16/"@)) {
        StreamRecord {
            sample_rate: match field(line, 47, 1) {
                Some(f) => match parse_number(f, 0xffff_ffff) {
                    Some(v) => v as u32,
                    None => 48000,
                },
                None => acc.sample_rate,
            },
            channels: match field(line, 47, 2) {
                Some(f) => match parse_number(f, 255) {
                    Some(v) => v as u8,
                    None => 2,
                },
                None => acc.channels,
            },
            bits_per_sample: if contains(line, ascii("L24"@)) {
                24
            } else {
                16
            },
            ..acc
        }
    } else {
        acc
    }
}

/// The first three digits of a decimal fraction as thousandths.
pub open spec fn thousandths(frac: Seq<u8>) -> nat {
    (if frac.len() > 0 { digit_value(frac[0]) * 100 } else { 0 }) + (if frac.len() > 1 {
        digit_value(frac[1]) * 10
    } else {
        0
    }) + (if frac.len() > 2 { digit_value(frac[2]) } else { 0 })
}

/// A time in milliseconds, written as digits with an optional decimal
/// fraction, read in microseconds. Digits after the third decimal place
/// are dropped.
pub open spec fn parse_millis(s: Seq<u8>) -> Option<nat> {
    let k = scan(s, 0, Stop::Byte(46));
    let whole = s.take(k);
    let frac = if k < s.len() { s.skip(k + 1) } else { Seq::empty() };
    let us = digits_value(whole) * 1000 + thousandths(frac);
    if whole.len() > 0 && all_digits(whole) && all_digits(frac) && us <= 0xffff_ffff {
        Some(us)
    } else {
        None
    }
}

/// `a=ptime:<ms>`: the packet time, if it reads as one.
pub open spec fn with_ptime(acc: StreamRecord, rest: Seq<u8>) -> StreamRecord {
    match parse_millis(rest) {
        Some(us) => StreamRecord { ptime_us: us as u32, ..acc },
        None => acc,
    }
}

/// What one line of a description adds to what is known of the stream.
/// The line is taken without white space at its ends.
pub open spec fn with_line(acc: StreamRecord, line: Seq<u8>) -> StreamRecord {
    if starts_with(line, ascii("s="@)) {
        StreamRecord { name: line.skip(2), ..acc }
    } else if starts_with(line, ascii("o="@)) {
        with_origin(acc, line.skip(2))
    } else if starts_with(line, ascii("c="@)) {
        with_connection(acc, line.skip(2))
    } else if starts_with(line, ascii("m=audio "@)) {
        with_media(acc, line.skip(8))
    } else if starts_with(line, ascii("a=rtpmap:"@)) {
        with_rtpmap(acc, line)
    } else if starts_with(line, ascii("a=ptime:"@)) {
        with_ptime(acc, line.skip(8))
    } else {
        acc
    }
}

/// What the lines of `text` add up to, taken one after the other. Lines
/// end at a line feed.
pub open spec fn with_lines(acc: StreamRecord, text: Seq<u8>) -> StreamRecord
    decreases text.len(),
{
    if text.len() == 0 {
        acc
    } else {
        let n = scan(text, 0, Stop::Byte(10));
        let next = with_line(acc, trimmed(text.take(n)));
        if n < 0 || n >= text.len() {
            next
        } else {
            with_lines(next, text.skip(n + 1))
        }
    }
}

/// The stream that the description `text` describes. There is none
/// without a session identifier; a stream without a name is called
/// `AES67 Stream <session>`.
pub open spec fn described(text: Seq<u8>, default_origin: Seq<u8>) -> Option<StreamRecord> {
    let f = with_lines(assumed(default_origin), text);
    if f.session_id.len() == 0 {
        None
    } else {
        Some(
            StreamRecord {
                name: if f.name.len() == 0 {
                    ascii("AES67 Stream "@) + f.session_id
                } else {
                    f.name
                },
                sdp: text,
                ..f
            },
        )
    }
}

/// Copies a byte string.
pub fn to_vec(s: &[u8]) -> (v: Vec<u8>)
    ensures
        v@ == s@,
{
    let mut v: Vec<u8> = Vec::with_capacity(s.len());
    v.extend_from_slice(s);
    assert(v@ =~= s@);
    v
}

/// Reads a time in milliseconds as microseconds.
pub fn read_millis(s: &[u8]) -> (r: Option<u32>)
    ensures
        r == match parse_millis(s@) {
            Some(us) => Some(us as u32),
            None => None,
        },
{
    let k = scan_to(s, 0, Stop::Byte(46));
    let whole = slice_subrange(s, 0, k);
    assert(whole@ =~= s@.take(k as int));
    let frac = if k < s.len() {
        let f = slice_subrange(s, k + 1, s.len());
        assert(f@ =~= s@.skip(k as int + 1));
        f
    } else {
        let f = slice_subrange(s, 0, 0);
        assert(f@ =~= Seq::<u8>::empty());
        f
    };
    let mut i: usize = 0;
    assert(!all_digits(frac@) ==> parse_millis(s@).is_none());
    while i < frac.len()
        invariant
            i <= frac@.len(),
            all_digits(frac@.take(i as int)),
            !all_digits(frac@) ==> parse_millis(s@).is_none(),
        decreases frac@.len() - i,
    {
        if frac[i] < 48 || frac[i] > 57 {
            assert(!is_digit(frac@[i as int]));
            return None;
        }
        assert forall|j: int| 0 <= j < i + 1 implies is_digit(
            #[trigger] frac@.take(i as int + 1)[j],
        ) by {
            if j < i {
                assert(frac@.take(i as int)[j] == frac@[j]);
            }
        }
        i = i + 1;
    }
    assert(frac@.take(frac@.len() as int) =~= frac@);
    let d0: u32 = if frac.len() > 0 { (frac[0] - 48) as u32 } else { 0 };
    let d1: u32 = if frac.len() > 1 { (frac[1] - 48) as u32 } else { 0 };
    let d2: u32 = if frac.len() > 2 { (frac[2] - 48) as u32 } else { 0 };
    let part: u32 = d0 * 100 + d1 * 10 + d2;
    assert(part == thousandths(frac@));
    match read_digits(whole, 4294967) {
        Some(w) => {
            let us: u64 = w as u64 * 1000 + part as u64;
            if us <= 0xffff_ffff {
                Some(us as u32)
            } else {
                None
            }
        },
        None => {
            assert(whole@.len() > 0 && all_digits(whole@) ==> digits_value(whole@) * 1000
                > 0xffff_ffff) by (nonlinear_arith)
                requires
                    whole@.len() > 0 && all_digits(whole@) ==> digits_value(whole@) > 4294967,
            ;
            None
        },
    }
}

fn apply_origin(acc: &mut Aes67Stream, rest: &[u8])
    ensures
        final(acc)@ == with_origin(old(acc)@, rest@),
{
    let address = word_at(rest, 5);
    if address.len() > 0 {
        let user = word_at(rest, 0);
        let session = word_at(rest, 1);
        let mut id = to_vec(user);
        id.push(95);
        push_bytes(&mut id, session);
        assert(id@ =~= nth_word(rest@, 0) + seq![95u8] + nth_word(rest@, 1));
        acc.session_id = id;
        acc.origin = to_vec(address);
    }
}

fn apply_connection(acc: &mut Aes67Stream, rest: &[u8])
    ensures
        final(acc)@ == with_connection(old(acc)@, rest@),
{
    let word = word_at(rest, 2);
    if word.len() > 0 {
        let k = scan_to(word, 0, Stop::Byte(47));
        let address = slice_subrange(word, 0, k);
        assert(address@ =~= word@.take(k as int));
        match Ipv4Addr::parse(address) {
            Some(ip) => {
                acc.multicast_addr = ip;
            },
            None => {},
        }
    }
}

fn apply_media(acc: &mut Aes67Stream, rest: &[u8])
    ensures
        final(acc)@ == with_media(old(acc)@, rest@),
{
    let (word, _) = split_word(rest);
    if word.len() > 0 {
        acc.port = match read_number(word, 65535) {
            Some(p) => p as u16,
            None => 5004,
        };
    }
}

fn apply_rtpmap(acc: &mut Aes67Stream, line: &[u8])
    ensures
        final(acc)@ == with_rtpmap(old(acc)@, line@),
{
    proof {
        reveal_strlit("L24/");
        reveal_strlit("L16/");
        reveal_strlit("L24");
    }
    if has_part(line, ascii_bytes("L24/")) || has_part(line, ascii_bytes("L16/")) {
        match field_at(line, 47, 1) {
            Some(f) => {
                acc.sample_rate = match read_number(f, 0xffff_ffff) {
                    Some(v) => v,
                    None => 48000,
                };
            },
            None => {},
        }
        match field_at(line, 47, 2) {
            Some(f) => {
                acc.channels = match read_number(f, 255) {
                    Some(v) => v as u8,
                    None => 2,
                };
            },
            None => {},
        }
        acc.bits_per_sample = if has_part(line, ascii_bytes("L24")) {
            24
        } else {
            16
        };
    }
}

fn apply_ptime(acc: &mut Aes67Stream, rest: &[u8])
    ensures
        final(acc)@ == with_ptime(old(acc)@, rest@),
{
    match read_millis(rest) {
        Some(us) => {
            acc.ptime_us = us;
        },
        None => {},
    }
}

/// Takes one line of a description, without white space at its ends,
/// into the record.
pub fn apply_line(acc: &mut Aes67Stream, line: &[u8])
    ensures
        final(acc)@ == with_line(old(acc)@, line@),
{
    proof {
        reveal_strlit("s=");
        reveal_strlit("o=");
        reveal_strlit("c=");
        reveal_strlit("m=audio ");
        reveal_strlit("a=rtpmap:");
        reveal_strlit("a=ptime:");
    }
    if has_prefix(line, ascii_bytes("s=")) {
        let rest = slice_subrange(line, 2, line.len());
        assert(rest@ =~= line@.skip(2));
        acc.name = to_vec(rest);
    } else if has_prefix(line, ascii_bytes("o=")) {
        let rest = slice_subrange(line, 2, line.len());
        assert(rest@ =~= line@.skip(2));
        apply_origin(acc, rest);
    } else if has_prefix(line, ascii_bytes("c=")) {
        let rest = slice_subrange(line, 2, line.len());
        assert(rest@ =~= line@.skip(2));
        apply_connection(acc, rest);
    } else if has_prefix(line, ascii_bytes("m=audio ")) {
        let rest = slice_subrange(line, 8, line.len());
        assert(rest@ =~= line@.skip(8));
        apply_media(acc, rest);
    } else if has_prefix(line, ascii_bytes("a=rtpmap:")) {
        apply_rtpmap(acc, line);
    } else if has_prefix(line, ascii_bytes("a=ptime:")) {
        let rest = slice_subrange(line, 8, line.len());
        assert(rest@ =~= line@.skip(8));
        apply_ptime(acc, rest);
    }
}

/// Reads a session description. `default_origin` stands for the sender
/// where the description names none. Returns `None` when the description
/// has no session identifier.
pub fn parse_sdp(sdp: &[u8], default_origin: Vec<u8>) -> (r: Option<Aes67Stream>)
    ensures
        match described(sdp@, default_origin@) {
            Some(record) => r.is_some() && r.unwrap()@ == record,
            None => r.is_none(),
        },
{
    let mut acc = Aes67Stream {
        name: Vec::new(),
        session_id: Vec::new(),
        origin: default_origin,
        multicast_addr: Ipv4Addr::new(0, 0, 0, 0),
        port: 5004,
        channels: 2,
        sample_rate: 48000,
        bits_per_sample: 24,
        ptime_us: 1000,
        direction: StreamDirection::Send,
        sdp: Vec::new(),
    };
    let ghost start = assumed(default_origin@);
    assert(acc@ == start) by {
        assert(acc@.name =~= start.name);
        assert(acc@.session_id =~= start.session_id);
        assert(acc@.sdp =~= start.sdp);
    }
    let mut pos: usize = 0;
    assert(sdp@.skip(0) =~= sdp@);
    while pos < sdp.len()
        invariant
            pos <= sdp@.len(),
            with_lines(start, sdp@) == with_lines(acc@, sdp@.skip(pos as int)),
        decreases sdp@.len() - pos,
    {
        let rest = slice_subrange(sdp, pos, sdp.len());
        assert(rest@ =~= sdp@.skip(pos as int));
        let n = scan_to(rest, 0, Stop::Byte(10));
        let raw = slice_subrange(rest, 0, n);
        assert(raw@ =~= rest@.take(n as int));
        let line = trim(raw);
        apply_line(&mut acc, line);
        if n >= rest.len() {
            pos = sdp.len();
            assert(sdp@.skip(pos as int) =~= Seq::<u8>::empty());
        } else {
            assert(sdp@.skip(pos as int + n as int + 1) =~= rest@.skip(n as int + 1));
            pos = pos + n + 1;
        }
    }
    if acc.session_id.len() == 0 {
        return None;
    }
    if acc.name.len() == 0 {
        proof {
            reveal_strlit("AES67 Stream ");
        }
        let mut name = to_vec(ascii_bytes("AES67 Stream "));
        push_bytes(&mut name, acc.session_id.as_slice());
        acc.name = name;
    }
    acc.sdp = to_vec(sdp);
    Some(acc)
}

/// A fraction of a thousand as three digits.
pub open spec fn three_digits(v: nat) -> Seq<u8> {
    seq![(48 + v / 100 % 10) as u8, (48 + v / 10 % 10) as u8, (48 + v % 10) as u8]
}

/// Line break of the description: carriage return, line feed.
pub open spec fn crlf() -> Seq<u8> {
    seq![13u8, 10u8]
}

/// `o=- <session> <version> IN IP4 <origin>`
pub open spec fn origin_line(r: StreamRecord, version: u64) -> Seq<u8> {
    ascii("o=- "@) + r.session_id + seq![32u8] + decimal_digits(version as nat) + ascii(
        " IN IP4 "@,
    ) + r.origin
}

/// `s=<name>`
pub open spec fn name_line(r: StreamRecord) -> Seq<u8> {
    ascii("s="@) + r.name
}

/// `c=IN IP4 <group>/64`
pub open spec fn connection_line(r: StreamRecord) -> Seq<u8> {
    ascii("c=IN IP4 "@) + dotted(r.multicast_addr) + ascii("/64"@)
}

/// `m=audio <port> RTP/AVP 97`
pub open spec fn media_line(r: StreamRecord) -> Seq<u8> {
    ascii("m=audio "@) + decimal_digits(r.port as nat) + ascii(" RTP/AVP 97"@)
}

/// `a=rtpmap:97 L<bits>/<rate>/<channels>`
pub open spec fn rtpmap_line(r: StreamRecord) -> Seq<u8> {
    ascii("a=rtpmap:97 L"@) + decimal_digits(r.bits_per_sample as nat) + seq![47u8]
        + decimal_digits(r.sample_rate as nat) + seq![47u8] + decimal_digits(r.channels as nat)
}

/// `a=ptime:<ms>` with three decimal places
pub open spec fn ptime_line(r: StreamRecord) -> Seq<u8> {
    ascii("a=ptime:"@) + decimal_digits(r.ptime_us as nat / 1000) + seq![46u8] + three_digits(
        r.ptime_us as nat % 1000,
    )
}

/// The reference clock that every stream is announced with: PTP of IEEE
/// 1588-2008, no grandmaster named, domain 0.
pub open spec fn refclk_line() -> Seq<u8> {
    ascii("a=ts-refclk:ptp=IEEE1588-2008:"@) + ascii("00-00-00-00-00-00-00-00:0"@)
}

/// The description that announces `r`, every line closed by CR LF.
pub open spec fn sdp_text(r: StreamRecord, version: u64) -> Seq<u8> {
    Seq::<u8>::empty() + (ascii("v=0"@) + crlf()) + (origin_line(r, version) + crlf()) + (name_line(r)
        + crlf()) + (connection_line(r) + crlf()) + (ascii("t=0 0"@) + crlf()) + (media_line(r)
        + crlf()) + (rtpmap_line(r) + crlf()) + (ptime_line(r) + crlf()) + (refclk_line() + crlf())
        + (ascii("a=mediaclk:direct=0"@) + crlf())
}

fn push_crlf(out: &mut Vec<u8>)
    ensures
        final(out)@ == old(out)@ + crlf(),
{
    out.push(13);
    out.push(10);
    assert(final(out)@ =~= old(out)@ + crlf());
}

fn push_text_line(out: &mut Vec<u8>, line: &str)
    requires
        is_ascii(line),
    ensures
        final(out)@ == old(out)@ + (ascii(line@) + crlf()),
{
    push_bytes(out, ascii_bytes(line));
    push_crlf(out);
    assert(final(out)@ =~= old(out)@ + (ascii(line@) + crlf()));
}

fn push_origin_line(out: &mut Vec<u8>, stream: &Aes67Stream, version: u64)
    ensures
        final(out)@ == old(out)@ + (origin_line(stream@, version) + crlf()),
{
    proof {
        reveal_strlit("o=- ");
        reveal_strlit(" IN IP4 ");
    }
    push_bytes(out, ascii_bytes("o=- "));
    push_bytes(out, stream.session_id.as_slice());
    out.push(32);
    push_decimal(out, version);
    push_bytes(out, ascii_bytes(" IN IP4 "));
    push_bytes(out, stream.origin.as_slice());
    push_crlf(out);
    assert(final(out)@ =~= old(out)@ + (origin_line(stream@, version) + crlf()));
}

fn push_name_line(out: &mut Vec<u8>, stream: &Aes67Stream)
    ensures
        final(out)@ == old(out)@ + (name_line(stream@) + crlf()),
{
    proof {
        reveal_strlit("s=");
    }
    push_bytes(out, ascii_bytes("s="));
    push_bytes(out, stream.name.as_slice());
    push_crlf(out);
    assert(final(out)@ =~= old(out)@ + (name_line(stream@) + crlf()));
}

fn push_connection_line(out: &mut Vec<u8>, stream: &Aes67Stream)
    ensures
        final(out)@ == old(out)@ + (connection_line(stream@) + crlf()),
{
    proof {
        reveal_strlit("c=IN IP4 ");
        reveal_strlit("/64");
    }
    push_bytes(out, ascii_bytes("c=IN IP4 "));
    stream.multicast_addr.write(out);
    push_bytes(out, ascii_bytes("/64"));
    push_crlf(out);
    assert(final(out)@ =~= old(out)@ + (connection_line(stream@) + crlf()));
}

fn push_media_line(out: &mut Vec<u8>, stream: &Aes67Stream)
    ensures
        final(out)@ == old(out)@ + (media_line(stream@) + crlf()),
{
    proof {
        reveal_strlit("m=audio ");
        reveal_strlit(" RTP/AVP 97");
    }
    push_bytes(out, ascii_bytes("m=audio "));
    push_decimal(out, stream.port as u64);
    push_bytes(out, ascii_bytes(" RTP/AVP 97"));
    push_crlf(out);
    assert(final(out)@ =~= old(out)@ + (media_line(stream@) + crlf()));
}

fn push_rtpmap_line(out: &mut Vec<u8>, stream: &Aes67Stream)
    ensures
        final(out)@ == old(out)@ + (rtpmap_line(stream@) + crlf()),
{
    proof {
        reveal_strlit("a=rtpmap:97 L");
    }
    push_bytes(out, ascii_bytes("a=rtpmap:97 L"));
    push_decimal(out, stream.bits_per_sample as u64);
    out.push(47);
    push_decimal(out, stream.sample_rate as u64);
    out.push(47);
    push_decimal(out, stream.channels as u64);
    push_crlf(out);
    assert(final(out)@ =~= old(out)@ + (rtpmap_line(stream@) + crlf()));
}

fn push_ptime_line(out: &mut Vec<u8>, stream: &Aes67Stream)
    ensures
        final(out)@ == old(out)@ + (ptime_line(stream@) + crlf()),
{
    proof {
        reveal_strlit("a=ptime:");
    }
    let part: u32 = stream.ptime_us % 1000;
    push_bytes(out, ascii_bytes("a=ptime:"));
    push_decimal(out, (stream.ptime_us / 1000) as u64);
    out.push(46);
    out.push(48 + (part / 100 % 10) as u8);
    out.push(48 + (part / 10 % 10) as u8);
    out.push(48 + (part % 10) as u8);
    push_crlf(out);
    assert(final(out)@ =~= old(out)@ + (ptime_line(stream@) + crlf()));
}

fn push_refclk_line(out: &mut Vec<u8>)
    ensures
        final(out)@ == old(out)@ + (refclk_line() + crlf()),
{
    proof {
        reveal_strlit("a=ts-refclk:ptp=IEEE1588-2008:");
        reveal_strlit("00-00-00-00-00-00-00-00:0");
    }
    push_bytes(out, ascii_bytes("a=ts-refclk:ptp=IEEE1588-2008:"));
    push_bytes(out, ascii_bytes("00-00-00-00-00-00-00-00:0"));
    push_crlf(out);
    assert(final(out)@ =~= old(out)@ + (refclk_line() + crlf()));
}

/// Writes the description that announces `stream`. `session_version` is
/// the version of the announcement, by custom the time it was made.
pub fn generate_sdp(stream: &Aes67Stream, session_version: u64) -> (out: Vec<u8>)
    ensures
        out@ == sdp_text(stream@, session_version),
{
    let mut out: Vec<u8> = Vec::new();
    proof {
        reveal_strlit("v=0");
        reveal_strlit("t=0 0");
        reveal_strlit("a=mediaclk:direct=0");
    }
    push_text_line(&mut out, "v=0");
    push_origin_line(&mut out, stream, session_version);
    push_name_line(&mut out, stream);
    push_connection_line(&mut out, stream);
    push_text_line(&mut out, "t=0 0");
    push_media_line(&mut out, stream);
    push_rtpmap_line(&mut out, stream);
    push_ptime_line(&mut out, stream);
    push_refclk_line(&mut out);
    push_text_line(&mut out, "a=mediaclk:direct=0");
    out
}

} // verus!
