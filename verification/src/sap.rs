//! Session announcements: the SAP packet that carries a description, and
//! the table of streams that announcements add to and withdraw from.

use crate::backend::{DeviceRecord, NetworkDevice, NetworkDeviceType};
use crate::net::{dotted, Ipv4Addr};
use crate::sdp::{
    described, generate_sdp, parse_sdp, sdp_text, Aes67Stream, StreamDirection, StreamRecord,
};
use crate::text::{ascii, ascii_bytes, lemma_scan_is, push_bytes, same_bytes, scan, scan_to, Stop};
use vstd::prelude::*;
use vstd::slice::slice_subrange;
use vstd::string::*;

verus! {

/// UDP port of session announcements.
pub const SAP_PORT: u16 = 9875;

/// The group that session announcements are sent to, 224.2.127.254.
pub fn sap_multicast_addr() -> (ip: Ipv4Addr)
    ensures
        ip == (Ipv4Addr { a: 224, b: 2, c: 127, d: 254 }),
{
    Ipv4Addr::new(224, 2, 127, 254)
}

/// The message identifier of a session: the sum of the bytes of its
/// identifier, modulo 65536.
pub open spec fn id_hash(id: Seq<u8>) -> int
    decreases id.len(),
{
    if id.len() == 0 {
        0
    } else {
        (id_hash(id.drop_last()) + id.last()) % 65536
    }
}

/// The payload type that precedes a description, with its closing zero.
pub open spec fn mime_type() -> Seq<u8> {
    ascii("application/sdp\0"@)
}

/// The eight header bytes of an announcement: version 1, an IPv4 origin
/// of 0.0.0.0, no authentication, and the deletion bit as asked.
pub open spec fn sap_header(session_id: Seq<u8>, deletion: bool) -> Seq<u8> {
    seq![
        if deletion { 0x24u8 } else { 0x20u8 },
        0u8,
        (id_hash(session_id) / 256) as u8,
        (id_hash(session_id) % 256) as u8,
        0u8,
        0u8,
        0u8,
        0u8,
    ]
}

/// The announcement packet of a session.
pub open spec fn sap_packet(session_id: Seq<u8>, sdp: Seq<u8>, deletion: bool) -> Seq<u8> {
    sap_header(session_id, deletion) + mime_type() + sdp
}

/// Length of the header of the packet `data`: four bytes, the origin
/// (four bytes, sixteen for IPv6) and the authentication data.
pub open spec fn sap_header_len(data: Seq<u8>) -> int
    recommends
        data.len() >= 2,
{
    4 + (if data[0] as int / 16 % 2 == 1 { 16int } else { 4int }) + data[1] as int * 4
}

/// The description that the packet `data` carries: what follows the
/// header and, if there is one, the payload type with its closing zero.
/// There is none in a packet of under eight bytes, of another version
/// than 1, or with nothing behind the payload type.
pub open spec fn sap_payload(data: Seq<u8>) -> Option<Seq<u8>> {
    if data.len() < 8 || data[0] as int / 32 != 1 || data.len() < sap_header_len(data) {
        None
    } else {
        let payload = data.skip(sap_header_len(data));
        let zero = scan(payload, 0, Stop::Byte(0));
        let start = if zero < payload.len() { zero + 1 } else { 0 };
        if start >= payload.len() {
            None
        } else {
            Some(payload.skip(start))
        }
    }
}

/// Whether the packet withdraws its session.
pub open spec fn is_deletion(data: Seq<u8>) -> bool {
    data.len() > 0 && data[0] as int / 4 % 2 == 1
}

/// The stream that the packet `data` announces, received from `source`.
pub open spec fn announced_stream(data: Seq<u8>, source: Ipv4Addr) -> Option<StreamRecord> {
    match sap_payload(data) {
        Some(text) => described(text, dotted(source)),
        None => None,
    }
}

/// Builds the announcement packet of a session. With `deletion` set the
/// packet withdraws the session.
pub fn build_sap_packet(session_id: &[u8], sdp: &[u8], deletion: bool) -> (packet: Vec<u8>)
    ensures
        packet@ == sap_packet(session_id@, sdp@, deletion),
{
    let mut hash: u16 = 0;
    let mut i: usize = 0;
    while i < session_id.len()
        invariant
            i <= session_id@.len(),
            hash == id_hash(session_id@.take(i as int)),
        decreases session_id@.len() - i,
    {
        assert(session_id@.take(i as int + 1).drop_last() =~= session_id@.take(i as int));
        hash = ((hash as u32 + session_id[i] as u32) % 65536) as u16;
        i = i + 1;
    }
    assert(session_id@.take(session_id@.len() as int) =~= session_id@);
    let mut packet: Vec<u8> = Vec::new();
    packet.push(if deletion { 0x24 } else { 0x20 });
    packet.push(0);
    packet.push((hash / 256) as u8);
    packet.push((hash % 256) as u8);
    packet.push(0);
    packet.push(0);
    packet.push(0);
    packet.push(0);
    assert(packet@ =~= sap_header(session_id@, deletion));
    proof {
        reveal_strlit("application/sdp\0");
    }
    push_bytes(&mut packet, ascii_bytes("application/sdp\0"));
    push_bytes(&mut packet, sdp);
    packet
}

/// Reads the announcement packet `data`, received from `source`, which
/// stands for the origin where the description names none.
pub fn parse_sap_packet(data: &[u8], source: Ipv4Addr) -> (r: Option<Aes67Stream>)
    ensures
        match announced_stream(data@, source) {
            Some(record) => r.is_some() && r.unwrap()@ == record,
            None => r.is_none(),
        },
{
    if data.len() < 8 {
        return None;
    }
    if data[0] / 32 != 1 {
        return None;
    }
    let origin_len: usize = if data[0] / 16 % 2 == 1 { 16 } else { 4 };
    let header_len: usize = 4 + origin_len + data[1] as usize * 4;
    if data.len() < header_len {
        return None;
    }
    let payload = slice_subrange(data, header_len, data.len());
    assert(payload@ =~= data@.skip(header_len as int));
    let zero = scan_to(payload, 0, Stop::Byte(0));
    let start: usize = if zero < payload.len() { zero + 1 } else { 0 };
    if start >= payload.len() {
        return None;
    }
    let text = slice_subrange(payload, start, payload.len());
    assert(text@ =~= payload@.skip(start as int));
    parse_sdp(text, source.to_bytes())
}

/// An announcement that carries a description is read as that
/// description: the payload of the packet is the text it was built from.
pub proof fn lemma_sap_roundtrip(session_id: Seq<u8>, sdp: Seq<u8>, deletion: bool)
    requires
        sdp.len() > 0,
    ensures
        sap_payload(sap_packet(session_id, sdp, deletion)) == Some(sdp),
        is_deletion(sap_packet(session_id, sdp, deletion)) == deletion,
{
    reveal_strlit("application/sdp\0");
    let data = sap_packet(session_id, sdp, deletion);
    let m = mime_type();
    assert(data[0] == if deletion { 0x24u8 } else { 0x20u8 });
    assert(data[1] == 0);
    assert(sap_header_len(data) == 8);
    let payload = data.skip(8);
    assert(payload =~= m + sdp);
    assert forall|j: int| 0 <= j < 15 implies !Stop::Byte(0).hit(#[trigger] payload[j]) by {
        assert(payload[j] == m[j]);
    }
    assert(payload[15] == m[15]);
    lemma_scan_is(payload, 0, Stop::Byte(0), 15);
    assert(payload.skip(16) =~= sdp);
}

/// The index of the first stream of `streams` with the session `id`, or
/// the length of `streams` if there is none.
pub open spec fn find_session(streams: Seq<StreamRecord>, id: Seq<u8>, from: int) -> int
    decreases streams.len() - from,
{
    if from < 0 || from >= streams.len() {
        streams.len() as int
    } else if streams[from].session_id == id {
        from
    } else {
        find_session(streams, id, from + 1)
    }
}

/// No two streams of `streams` have the same session.
pub open spec fn distinct_sessions(streams: Seq<StreamRecord>) -> bool {
    forall|i: int, j: int|
        0 <= i < j < streams.len() ==> (#[trigger] streams[i]).session_id != (
        #[trigger] streams[j]).session_id
}

/// `streams` with `record` in the place of the stream of the same
/// session, or at the end if there was none.
pub open spec fn with_stream(streams: Seq<StreamRecord>, record: StreamRecord) -> Seq<
    StreamRecord,
> {
    let k = find_session(streams, record.session_id, 0);
    if 0 <= k < streams.len() {
        streams.update(k, record)
    } else {
        streams.push(record)
    }
}

/// `streams` without the first stream of the session `id`.
pub open spec fn without_stream(streams: Seq<StreamRecord>, id: Seq<u8>) -> Seq<StreamRecord> {
    let k = find_session(streams, id, 0);
    if 0 <= k < streams.len() {
        streams.remove(k)
    } else {
        streams
    }
}

/// `streams` without any stream of the session `id`.
pub open spec fn without_session(streams: Seq<StreamRecord>, id: Seq<u8>) -> Seq<StreamRecord>
    decreases streams.len(),
{
    if streams.len() == 0 {
        streams
    } else if streams.last().session_id == id {
        without_session(streams.drop_last(), id)
    } else {
        without_session(streams.drop_last(), id).push(streams.last())
    }
}

/// Where the search for a session ends: at the first stream of that
/// session, or at the end when there is none.
pub proof fn lemma_find_session(streams: Seq<StreamRecord>, id: Seq<u8>, from: int)
    requires
        0 <= from <= streams.len(),
    ensures
        from <= find_session(streams, id, from) <= streams.len(),
        forall|j: int|
            from <= j < find_session(streams, id, from) ==> (#[trigger] streams[j]).session_id
                != id,
        find_session(streams, id, from) < streams.len() ==> streams[find_session(
            streams,
            id,
            from,
        )].session_id == id,
    decreases streams.len() - from,
{
    if from < streams.len() && streams[from].session_id != id {
        lemma_find_session(streams, id, from + 1);
    }
}

/// A table of distinct sessions stays one when a stream is put in or
/// taken out, and a session that was taken out is gone.
pub proof fn lemma_table_stays_distinct(streams: Seq<StreamRecord>, record: StreamRecord)
    requires
        distinct_sessions(streams),
    ensures
        distinct_sessions(with_stream(streams, record)),
        distinct_sessions(without_stream(streams, record.session_id)),
        find_session(without_stream(streams, record.session_id), record.session_id, 0)
            == without_stream(streams, record.session_id).len(),
        find_session(with_stream(streams, record), record.session_id, 0) < with_stream(
            streams,
            record,
        ).len(),
        with_stream(streams, record)[find_session(
            with_stream(streams, record),
            record.session_id,
            0,
        )] == record,
{
    let id = record.session_id;
    let k = find_session(streams, id, 0);
    lemma_find_session(streams, id, 0);
    let put = with_stream(streams, record);
    let cut = without_stream(streams, id);
    assert forall|i: int, j: int| 0 <= i < j < put.len() implies (#[trigger] put[i]).session_id != (
    #[trigger] put[j]).session_id by {
        if k < streams.len() {
            if i == k {
                assert(streams[i].session_id == id);
                assert(streams[i].session_id != streams[j].session_id);
            } else if j == k {
                assert(streams[j].session_id == id);
                assert(streams[i].session_id != streams[j].session_id);
            } else {
                assert(streams[i].session_id != streams[j].session_id);
            }
        } else {
            if j == streams.len() {
                assert(streams[i].session_id != id);
            } else {
                assert(streams[i].session_id != streams[j].session_id);
            }
        }
    }
    assert forall|i: int, j: int| 0 <= i < j < cut.len() implies (#[trigger] cut[i]).session_id != (
    #[trigger] cut[j]).session_id by {
        if k < streams.len() {
            let si = if i < k { i } else { i + 1 };
            let sj = if j < k { j } else { j + 1 };
            assert(cut[i] == streams[si]);
            assert(cut[j] == streams[sj]);
            assert(streams[si].session_id != streams[sj].session_id);
        } else {
            assert(streams[i].session_id != streams[j].session_id);
        }
    }
    lemma_find_session(cut, id, 0);
    let ck = find_session(cut, id, 0);
    if ck < cut.len() {
        if k < streams.len() {
            let s = if ck < k { ck } else { ck + 1 };
            assert(cut[ck] == streams[s]);
            if s < k {
                assert(streams[s].session_id != id);
            } else {
                assert(streams[k].session_id != streams[s].session_id);
            }
        } else {
            assert(streams[ck].session_id != id);
        }
    }
    lemma_find_session(put, id, 0);
    let pk = find_session(put, id, 0);
    if k < streams.len() {
        assert(put[k].session_id == id);
        if pk < k {
            assert(put[pk] == streams[pk]);
            assert(streams[pk].session_id != id);
        }
        assert(pk == k);
    } else {
        assert(put[streams.len() as int].session_id == id);
        if pk < streams.len() {
            assert(put[pk] == streams[pk]);
            assert(streams[pk].session_id != id);
        }
    }
}

/// A session that is announced and then withdrawn leaves a table that did
/// not hold it as it was.
pub proof fn lemma_announce_then_withdraw(streams: Seq<StreamRecord>, record: StreamRecord)
    requires
        find_session(streams, record.session_id, 0) == streams.len(),
    ensures
        without_stream(with_stream(streams, record), record.session_id) == streams,
{
    let id = record.session_id;
    let put = with_stream(streams, record);
    lemma_find_session(streams, id, 0);
    assert(put == streams.push(record));
    assert forall|j: int| 0 <= j < streams.len() implies (#[trigger] put[j]).session_id != id by {
        assert(put[j] == streams[j]);
    }
    lemma_find_session(put, id, 0);
    let k = find_session(put, id, 0);
    assert(k == streams.len()) by {
        if k < streams.len() {
            assert(put[k].session_id != id);
        }
        assert(put[streams.len() as int].session_id == id);
    }
    assert(put.remove(k) =~= streams);
}

/// From an empty table one announcement gives one entry, the same
/// announcement again still one, and its withdrawal none.
pub proof fn lemma_discovery_cycle(record: StreamRecord)
    ensures
        with_stream(Seq::<StreamRecord>::empty(), record) == seq![record],
        with_stream(seq![record], record) == seq![record],
        without_stream(seq![record], record.session_id) == Seq::<StreamRecord>::empty(),
{
    let none = Seq::<StreamRecord>::empty();
    let one = seq![record];
    assert(find_session(none, record.session_id, 0) == 0);
    assert(none.push(record) =~= one);
    assert(find_session(one, record.session_id, 0) == 0);
    assert(one.update(0, record) =~= one);
    assert(one.remove(0) =~= none);
}

/// A withdrawal takes nothing out of the table but the session it names:
/// every stream of another session is still there, and a stream of the
/// session, in a table of distinct sessions, is not.
pub proof fn lemma_withdraw_keeps_others(streams: Seq<StreamRecord>, id: Seq<u8>)
    requires
        distinct_sessions(streams),
    ensures
        forall|j: int|
            0 <= j < streams.len() && (#[trigger] streams[j]).session_id != id ==> without_stream(
                streams,
                id,
            ).contains(streams[j]),
        forall|j: int|
            0 <= j < without_stream(streams, id).len() ==> (#[trigger] without_stream(
                streams,
                id,
            )[j]).session_id != id && streams.contains(without_stream(streams, id)[j]),
{
    let cut = without_stream(streams, id);
    let k = find_session(streams, id, 0);
    lemma_find_session(streams, id, 0);
    assert forall|j: int| 0 <= j < streams.len() && (#[trigger] streams[j]).session_id
        != id implies cut.contains(streams[j]) by {
        if k < streams.len() {
            if j < k {
                assert(cut[j] == streams[j]);
            } else {
                assert(cut[j - 1] == streams[j]);
            }
        } else {
            assert(cut[j] == streams[j]);
        }
    }
    assert forall|j: int| 0 <= j < cut.len() implies (#[trigger] cut[j]).session_id != id
        && streams.contains(cut[j]) by {
        if k < streams.len() {
            let src = if j < k { j } else { j + 1 };
            assert(cut[j] == streams[src]);
            if src < k {
                assert(streams[src].session_id != id);
            } else {
                assert(streams[k].session_id != streams[src].session_id);
            }
        } else {
            assert(cut[j] == streams[j]);
            assert(streams[j].session_id != id);
        }
    }
}

/// The records of a list of streams.
pub open spec fn records(streams: Seq<Aes67Stream>) -> Seq<StreamRecord> {
    Seq::new(streams.len(), |i: int| streams[i]@)
}

/// The device that stands for a discovered stream.
pub open spec fn device_of(s: StreamRecord) -> DeviceRecord {
    DeviceRecord {
        id: s.session_id,
        name: s.name,
        device_type: match s.direction {
            StreamDirection::Send => NetworkDeviceType::Transmitter,
            StreamDirection::Receive => NetworkDeviceType::Receiver,
            StreamDirection::SendReceive => NetworkDeviceType::Both,
        },
        channels: s.channels as u32,
        sample_rate: s.sample_rate,
        ip_address: Some(s.origin),
        multicast_group: Some(dotted(s.multicast_addr)),
    }
}

/// What an announcement did to the table of streams.
#[derive(Debug, Clone, Copy, PartialEq, Eq, Structural)]
pub enum SapEvent {
    /// The packet announced nothing that could be read.
    Ignored,
    /// A stream was put into the table or took the place of an older
    /// announcement of its session.
    Announced,
    /// The session of the packet was taken out of the table.
    Withdrawn,
}

/// The streams that were discovered, one for each session, and the
/// streams that this host announces.
pub struct SapDiscovery {
    streams: Vec<Aes67Stream>,
    announced: Vec<Aes67Stream>,
}

impl SapDiscovery {
    /// The discovered streams, in the order in which their sessions were
    /// first announced.
    pub closed spec fn discovered(&self) -> Seq<StreamRecord> {
        records(self.streams@)
    }

    /// The streams that this host announces, oldest first.
    pub closed spec fn own(&self) -> Seq<StreamRecord> {
        records(self.announced@)
    }

    /// No session is in the table twice.
    pub open spec fn wf(&self) -> bool {
        distinct_sessions(self.discovered())
    }

    /// An empty table.
    pub fn new() -> (d: Self)
        ensures
            d.wf(),
            d.discovered() == Seq::<StreamRecord>::empty(),
            d.own() == Seq::<StreamRecord>::empty(),
    {
        let d = SapDiscovery { streams: Vec::new(), announced: Vec::new() };
        assert(d.discovered() =~= Seq::<StreamRecord>::empty());
        assert(d.own() =~= Seq::<StreamRecord>::empty());
        d
    }

    /// The discovered streams.
    pub fn streams(&self) -> (out: Vec<Aes67Stream>)
        ensures
            records(out@) == self.discovered(),
    {
        let out = copy_streams(&self.streams);
        out
    }

    /// The streams that this host announces.
    pub fn announced(&self) -> (out: Vec<Aes67Stream>)
        ensures
            records(out@) == self.own(),
    {
        copy_streams(&self.announced)
    }

    /// The discovered streams as network devices.
    pub fn as_devices(&self) -> (out: Vec<NetworkDevice>)
        ensures
            out@.len() == self.discovered().len(),
            forall|i: int|
                0 <= i < out@.len() ==> (#[trigger] out@[i])@ == device_of(self.discovered()[i]),
    {
        let mut out: Vec<NetworkDevice> = Vec::new();
        let mut i: usize = 0;
        while i < self.streams.len()
            invariant
                i <= self.streams@.len(),
                out@.len() == i,
                forall|k: int|
                    0 <= k < i ==> (#[trigger] out@[k])@ == device_of(records(self.streams@)[k]),
            decreases self.streams@.len() - i,
        {
            let s = &self.streams[i];
            let device = NetworkDevice {
                id: s.session_id.clone(),
                name: s.name.clone(),
                device_type: match s.direction {
                    StreamDirection::Send => NetworkDeviceType::Transmitter,
                    StreamDirection::Receive => NetworkDeviceType::Receiver,
                    StreamDirection::SendReceive => NetworkDeviceType::Both,
                },
                channels: s.channels as u32,
                sample_rate: s.sample_rate,
                ip_address: Some(s.origin.clone()),
                multicast_group: Some(s.multicast_addr.to_bytes()),
            };
            assert(device@ == device_of(s@));
            out.push(device);
            i = i + 1;
        }
        out
    }

    /// The discovered stream of the session `id`, if there is one.
    pub fn find(&self, id: &[u8]) -> (r: Option<Aes67Stream>)
        ensures
            match r {
                Some(s) => {
                    let k = find_session(self.discovered(), id@, 0);
                    k < self.discovered().len() && s@ == self.discovered()[k]
                },
                None => find_session(self.discovered(), id@, 0) == self.discovered().len(),
            },
    {
        let k = position(&self.streams, id);
        if k < self.streams.len() {
            Some(self.streams[k].duplicate())
        } else {
            None
        }
    }

    /// Takes one datagram as it came off the socket, from `source`. An
    /// announcement that can be read puts its stream into the table, or
    /// takes its session out of it when the deletion bit is set; any other
    /// packet leaves the table as it was.
    pub fn handle_packet(&mut self, data: &[u8], source: Ipv4Addr) -> (event: SapEvent)
        requires
            old(self).wf(),
        ensures
            final(self).wf(),
            final(self).own() == old(self).own(),
            match announced_stream(data@, source) {
                None => event == SapEvent::Ignored && final(self).discovered() == old(
                    self,
                ).discovered(),
                Some(record) => if is_deletion(data@) {
                    event == SapEvent::Withdrawn && final(self).discovered() == without_stream(
                        old(self).discovered(),
                        record.session_id,
                    )
                } else {
                    event == SapEvent::Announced && final(self).discovered() == with_stream(
                        old(self).discovered(),
                        record,
                    )
                },
            },
    {
        let stream = match parse_sap_packet(data, source) {
            Some(s) => s,
            None => {
                return SapEvent::Ignored;
            },
        };
        let ghost before = records(self.streams@);
        proof {
            lemma_table_stays_distinct(before, stream@);
        }
        let k = position(&self.streams, stream.session_id.as_slice());
        if data[0] / 4 % 2 == 1 {
            if k < self.streams.len() {
                self.streams.remove(k);
            }
            assert(records(self.streams@) =~= without_stream(before, stream@.session_id));
            SapEvent::Withdrawn
        } else {
            if k < self.streams.len() {
                self.streams.set(k, stream);
            } else {
                self.streams.push(stream);
            }
            assert(records(self.streams@) =~= with_stream(before, stream@));
            SapEvent::Announced
        }
    }

    /// Takes `stream` among the streams that this host announces and
    /// returns the packet that announces it.
    pub fn announce(&mut self, stream: Aes67Stream, session_version: u64) -> (packet: Vec<u8>)
        ensures
            packet@ == sap_packet(stream@.session_id, sdp_text(stream@, session_version), false),
            final(self).own() == old(self).own().push(stream@),
            final(self).discovered() == old(self).discovered(),
    {
        let sdp = generate_sdp(&stream, session_version);
        let packet = build_sap_packet(stream.session_id.as_slice(), sdp.as_slice(), false);
        self.announced.push(stream);
        assert(records(self.announced@) =~= records(old(self).announced@).push(stream@));
        packet
    }

    /// Takes the session `session_id` from the streams that this host
    /// announces and returns the packet that withdraws it.
    pub fn remove_announcement(&mut self, session_id: &[u8]) -> (packet: Vec<u8>)
        ensures
            packet@ == sap_packet(session_id@, Seq::<u8>::empty(), true),
            final(self).own() == without_session(old(self).own(), session_id@),
            final(self).discovered() == old(self).discovered(),
    {
        let empty: Vec<u8> = Vec::new();
        let packet = build_sap_packet(session_id, empty.as_slice(), true);
        let mut kept: Vec<Aes67Stream> = Vec::new();
        let mut i: usize = 0;
        assert(records(self.announced@).take(0) =~= Seq::<StreamRecord>::empty());
        while i < self.announced.len()
            invariant
                i <= self.announced@.len(),
                records(kept@) == without_session(records(self.announced@).take(i as int), session_id@),
            decreases self.announced@.len() - i,
        {
            let ghost all = records(self.announced@);
            assert(all.take(i as int + 1).drop_last() =~= all.take(i as int));
            assert(all.take(i as int + 1).last() == self.announced@[i as int]@);
            if !same_bytes(self.announced[i].session_id.as_slice(), session_id) {
                let ghost prev = records(kept@);
                kept.push(self.announced[i].duplicate());
                assert(records(kept@) =~= prev.push(self.announced@[i as int]@));
            }
            i = i + 1;
        }
        assert(records(self.announced@).take(self.announced@.len() as int) =~= records(
            self.announced@,
        ));
        self.announced = kept;
        packet
    }
}

fn copy_streams(streams: &Vec<Aes67Stream>) -> (out: Vec<Aes67Stream>)
    ensures
        records(out@) == records(streams@),
{
    let mut out: Vec<Aes67Stream> = Vec::new();
    let mut i: usize = 0;
    while i < streams.len()
        invariant
            i <= streams@.len(),
            out@.len() == i,
            forall|k: int| 0 <= k < i ==> (#[trigger] out@[k])@ == streams@[k]@,
        decreases streams@.len() - i,
    {
        out.push(streams[i].duplicate());
        i = i + 1;
    }
    assert(records(out@) =~= records(streams@));
    out
}

fn position(streams: &Vec<Aes67Stream>, id: &[u8]) -> (k: usize)
    ensures
        k == find_session(records(streams@), id@, 0),
        k <= streams@.len(),
{
    let mut i: usize = 0;
    while i < streams.len() && !same_bytes(streams[i].session_id.as_slice(), id)
        invariant
            i <= streams@.len(),
            find_session(records(streams@), id@, 0) == find_session(records(streams@), id@, i as int),
        decreases streams@.len() - i,
    {
        i = i + 1;
    }
    i
}

} // verus!
