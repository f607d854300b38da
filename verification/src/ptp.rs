//! The media clock: a minimal PTP slave that follows the Sync and
//! Follow_Up messages of a master and keeps a smoothed offset from it.
//!
//! The clock does no I/O. Its owner reads the two PTP sockets and the
//! local time, and hands every datagram to the clock with the time it
//! arrived.

use vstd::prelude::*;

verus! {

/// UDP port of timed PTP messages such as Sync.
pub const PTP_EVENT_PORT: u16 = 319;

/// UDP port of the other PTP messages such as Follow_Up.
pub const PTP_GENERAL_PORT: u16 = 320;

/// Shortest message that is looked at: the common PTP header.
pub const PTP_HEADER_LEN: usize = 34;

/// Length of a message that carries a timestamp behind the header.
pub const PTP_TIMED_LEN: usize = 44;

/// After this many nanoseconds without a sync a slave is in holdover.
pub const HOLDOVER_AFTER_NS: i64 = 3_000_000_000;

/// Where the clock stands with its master.
#[derive(Debug, Clone, Copy, PartialEq, Eq, Structural)]
pub enum PtpState {
    /// Not started.
    Initializing,
    /// Started, no sync seen yet.
    Listening,
    /// Following a master.
    Slave,
    /// Acting as master.
    Master,
    /// Was following a master that has fallen silent.
    Holdover,
}

/// Figures that the clock keeps of its synchronisation.
#[derive(Debug, Clone, Copy, PartialEq, Eq, Structural)]
pub struct PtpStats {
    /// Smoothed offset from the master in nanoseconds.
    pub offset_ns: i64,
    pub path_delay_ns: i64,
    /// Number of syncs that moved the offset.
    pub sync_count: u64,
    /// Distance of the last raw offset from the offset it met.
    pub clock_accuracy_ns: u64,
    pub steps_removed: u16,
}

impl Default for PtpStats {
    fn default() -> (s: Self)
        ensures
            s == (PtpStats {
                offset_ns: 0,
                path_delay_ns: 0,
                sync_count: 0,
                clock_accuracy_ns: 0,
                steps_removed: 0,
            }),
    {
        PtpStats {
            offset_ns: 0,
            path_delay_ns: 0,
            sync_count: 0,
            clock_accuracy_ns: 0,
            steps_removed: 0,
        }
    }
}

/// The kinds of PTP message that the clock tells apart.
#[derive(Debug, Clone, Copy, PartialEq, Eq, Structural)]
pub enum PtpMessageType {
    Sync,
    DelayReq,
    FollowUp,
    DelayResp,
    Announce,
    Other,
}

/// The kind of message that the low four bits of the first byte name.
pub open spec fn message_kind(first: u8) -> PtpMessageType {
    let t = first % 16;
    if t == 0 {
        PtpMessageType::Sync
    } else if t == 1 {
        PtpMessageType::DelayReq
    } else if t == 8 {
        PtpMessageType::FollowUp
    } else if t == 9 {
        PtpMessageType::DelayResp
    } else if t == 11 {
        PtpMessageType::Announce
    } else {
        PtpMessageType::Other
    }
}

/// `v` held to the range of a signed 64-bit number.
pub open spec fn clamp_i64(v: int) -> int {
    if v < -0x8000_0000_0000_0000 {
        -0x8000_0000_0000_0000
    } else if v > 0x7fff_ffff_ffff_ffff {
        0x7fff_ffff_ffff_ffff
    } else {
        v
    }
}

/// Division that rounds toward zero.
pub open spec fn trunc_div(a: int, d: int) -> int
    recommends
        d > 0,
{
    if a >= 0 {
        a / d
    } else {
        -((-a) / d)
    }
}

/// The time that ten timestamp bytes stand for, in nanoseconds: 48 bits
/// of seconds and 32 bits of nanoseconds, both big-endian.
pub open spec fn timestamp_ns(data: Seq<u8>) -> int
    recommends
        data.len() >= 10,
{
    (((((data[0] as int * 256 + data[1] as int) * 256 + data[2] as int) * 256 + data[3] as int)
        * 256 + data[4] as int) * 256 + data[5] as int) * 1_000_000_000 + (((data[6] as int * 256
        + data[7] as int) * 256 + data[8] as int) * 256 + data[9] as int)
}

/// Reads a PTP timestamp as nanoseconds. Fewer than ten bytes read as
/// zero; a time beyond the range of the result reads as its largest value.
pub fn extract_timestamp(data: &[u8]) -> (ns: i64)
    ensures
        ns == if data@.len() < 10 {
            0
        } else {
            clamp_i64(timestamp_ns(data@))
        },
{
    if data.len() < 10 {
        return 0;
    }
    let seconds: u64 = ((((data[0] as u64 * 256 + data[1] as u64) * 256 + data[2] as u64) * 256
        + data[3] as u64) * 256 + data[4] as u64) * 256 + data[5] as u64;
    let nanos: u64 = ((data[6] as u64 * 256 + data[7] as u64) * 256 + data[8] as u64) * 256
        + data[9] as u64;
    let total: u128 = seconds as u128 * 1_000_000_000 + nanos as u128;
    if total > 0x7fff_ffff_ffff_ffff {
        0x7fff_ffff_ffff_ffff
    } else {
        total as i64
    }
}

/// The offset that follows `prev` when the raw offset `raw` is measured:
/// the first measurement is taken as it is, every later one moves the
/// offset by an eighth of the way.
pub open spec fn smoothed(prev: i64, raw: int) -> int {
    if prev == 0 {
        raw
    } else {
        trunc_div(7 * prev + raw, 8)
    }
}

/// The media clock at local time `now_ns` with the offset `offset_ns`:
/// the corrected time in ticks of 48 kHz, modulo 2^32.
pub open spec fn media_ticks(now_ns: u64, offset_ns: i64) -> int {
    trunc_div((now_ns + offset_ns) * 48000, 1_000_000_000) % 0x1_0000_0000
}

/// The media clock at local time `now_ns`, in nanoseconds since the epoch,
/// for a clock that is `offset_ns` behind its master; an offset of zero
/// is the media clock of a host without a master.
pub fn media_timestamp_at(now_ns: u64, offset_ns: i64) -> (ticks: u32)
    ensures
        ticks == media_ticks(now_ns, offset_ns),
{
    let corrected: i128 = now_ns as i128 + offset_ns as i128;
    let scaled: i128 = corrected * 48000;
    if scaled >= 0 {
        let q: i128 = scaled / 1_000_000_000;
        (q % 0x1_0000_0000) as u32
    } else {
        let q: i128 = (-scaled) / 1_000_000_000;
        let m: i128 = q % 0x1_0000_0000;
        if m == 0 {
            0
        } else {
            (0x1_0000_0000 - m) as u32
        }
    }
}

/// What the clock knows, as plain values.
pub struct ClockView {
    pub state: PtpState,
    pub running: bool,
    pub offset_ns: i64,
    pub domain: u8,
    pub stats: PtpStats,
    /// Local time of the last sync that moved the offset.
    pub last_sync: Option<i64>,
    /// Sequence number of the last Sync message.
    pub sync_sequence: u16,
    /// Time of the master at the last Sync, once it is known.
    pub t1: Option<i64>,
    /// Local time at which the last Sync arrived.
    pub t2: Option<i64>,
}

/// What a message did to the clock.
#[derive(Debug, Clone, Copy, PartialEq, Eq, Structural)]
pub enum PtpEvent {
    /// Too short, of another domain, or of a kind that the port does not
    /// act on. The clock is unchanged.
    Ignored,
    /// A Sync whose timestamp is still to come in a Follow_Up.
    SyncPending,
    /// The offset was moved.
    OffsetUpdated,
}

/// The clock after a sync with master time `t1` and local time `t2`
/// stored, processed at local time `now_ns`.
pub open spec fn synced(c: ClockView, now_ns: i64) -> ClockView {
    match (c.t1, c.t2) {
        (Some(master), Some(local)) => {
            let raw = clamp_i64(master - local);
            let filtered = smoothed(c.offset_ns, raw) as i64;
            ClockView {
                state: PtpState::Slave,
                offset_ns: filtered,
                stats: PtpStats {
                    offset_ns: filtered,
                    sync_count: if c.stats.sync_count == u64::MAX {
                        u64::MAX
                    } else {
                        (c.stats.sync_count + 1) as u64
                    },
                    clock_accuracy_ns: if raw >= c.offset_ns {
                        (raw - c.offset_ns) as u64
                    } else {
                        (c.offset_ns - raw) as u64
                    },
                    ..c.stats
                },
                last_sync: Some(now_ns),
                ..c
            }
        },
        _ => c,
    }
}

/// The clock after the datagram `data` arrived on the event port at
/// local time `now_ns`.
pub open spec fn after_event_message(c: ClockView, data: Seq<u8>, now_ns: i64) -> ClockView {
    if data.len() < 34 || data[4] != c.domain || message_kind(data[0]) != PtpMessageType::Sync {
        c
    } else {
        let seen = ClockView {
            t2: Some(now_ns),
            sync_sequence: (data[30] as int * 256 + data[31] as int) as u16,
            ..c
        };
        if data[6] / 2 % 2 == 1 || data.len() < 44 {
            seen
        } else {
            synced(
                ClockView {
                    t1: Some(clamp_i64(timestamp_ns(data.subrange(34, 44))) as i64),
                    ..seen
                },
                now_ns,
            )
        }
    }
}

/// Whether a datagram on the general port is the Follow_Up of the last
/// Sync and carries its timestamp.
pub open spec fn is_awaited_follow_up(c: ClockView, data: Seq<u8>) -> bool {
    &&& data.len() >= 44
    &&& data[4] == c.domain
    &&& message_kind(data[0]) == PtpMessageType::FollowUp
    &&& data[30] as int * 256 + data[31] as int == c.sync_sequence
}

/// The clock after the datagram `data` arrived on the general port at
/// local time `now_ns`.
pub open spec fn after_general_message(c: ClockView, data: Seq<u8>, now_ns: i64) -> ClockView {
    if is_awaited_follow_up(c, data) {
        synced(
            ClockView { t1: Some(clamp_i64(timestamp_ns(data.subrange(34, 44))) as i64), ..c },
            now_ns,
        )
    } else {
        c
    }
}

/// Whether a slave has gone without a sync for too long at `now_ns`.
pub open spec fn sync_lost(c: ClockView, now_ns: i64) -> bool {
    c.state == PtpState::Slave && match c.last_sync {
        Some(last) => now_ns - last > HOLDOVER_AFTER_NS,
        None => false,
    }
}

/// A PTP slave clock.
pub struct PtpClock {
    state: PtpState,
    running: bool,
    offset_ns: i64,
    interface: String,
    domain: u8,
    stats: PtpStats,
    last_sync: Option<i64>,
    sync_sequence: u16,
    t1: Option<i64>,
    t2: Option<i64>,
}

impl View for PtpClock {
    type V = ClockView;

    closed spec fn view(&self) -> ClockView {
        ClockView {
            state: self.state,
            running: self.running,
            offset_ns: self.offset_ns,
            domain: self.domain,
            stats: self.stats,
            last_sync: self.last_sync,
            sync_sequence: self.sync_sequence,
            t1: self.t1,
            t2: self.t2,
        }
    }
}

impl PtpClock {
    /// Name of the network interface that the clock listens on.
    pub closed spec fn interface_name(&self) -> Seq<char> {
        self.interface@
    }

    /// A clock that was not started: domain 0, offset 0, nothing seen.
    pub fn new(interface: &str) -> (c: Self)
        ensures
            c.interface_name() == interface@,
            c@ == (ClockView {
                state: PtpState::Initializing,
                running: false,
                offset_ns: 0,
                domain: 0,
                stats: PtpStats {
                    offset_ns: 0,
                    path_delay_ns: 0,
                    sync_count: 0,
                    clock_accuracy_ns: 0,
                    steps_removed: 0,
                },
                last_sync: None,
                sync_sequence: 0,
                t1: None,
                t2: None,
            }),
    {
        PtpClock {
            state: PtpState::Initializing,
            running: false,
            offset_ns: 0,
            interface: interface.to_owned(),
            domain: 0,
            stats: PtpStats::default(),
            last_sync: None,
            sync_sequence: 0,
            t1: None,
            t2: None,
        }
    }

    /// Sets the PTP domain; a number above 127 stands for 127.
    pub fn set_domain(&mut self, domain: u8)
        ensures
            final(self)@ == (ClockView { domain: if domain > 127 { 127 } else { domain }, ..old(self)@ }),
            final(self).interface_name() == old(self).interface_name(),
    {
        self.domain = if domain > 127 { 127 } else { domain };
    }

    pub fn interface(&self) -> (s: &str)
        ensures
            s@ == self.interface_name(),
    {
        self.interface.as_str()
    }

    pub fn domain(&self) -> (d: u8)
        ensures
            d == self@.domain,
    {
        self.domain
    }

    pub fn state(&self) -> (s: PtpState)
        ensures
            s == self@.state,
    {
        self.state
    }

    /// The smoothed offset from the master in nanoseconds.
    pub fn offset_ns(&self) -> (o: i64)
        ensures
            o == self@.offset_ns,
    {
        self.offset_ns
    }

    pub fn stats(&self) -> (s: PtpStats)
        ensures
            s == self@.stats,
    {
        self.stats
    }

    pub fn is_running(&self) -> (r: bool)
        ensures
            r == self@.running,
    {
        self.running
    }

    /// Whether the clock follows a master or is one.
    pub fn is_synchronized(&self) -> (b: bool)
        ensures
            b == (self@.state == PtpState::Slave || self@.state == PtpState::Master),
    {
        match self.state {
            PtpState::Slave => true,
            PtpState::Master => true,
            _ => false,
        }
    }

    /// Starts the clock. Returns whether it was stopped before, which is
    /// when its owner has to start listening; a running clock is left as
    /// it is.
    pub fn start(&mut self) -> (started: bool)
        ensures
            started == !old(self)@.running,
            final(self).interface_name() == old(self).interface_name(),
            final(self)@ == if old(self)@.running {
                old(self)@
            } else {
                ClockView { running: true, state: PtpState::Listening, ..old(self)@ }
            },
    {
        if self.running {
            return false;
        }
        self.running = true;
        self.state = PtpState::Listening;
        true
    }

    /// Stops the clock. The offset stays as it is.
    pub fn stop(&mut self)
        ensures
            final(self).interface_name() == old(self).interface_name(),
            final(self)@ == (ClockView {
                running: false,
                state: PtpState::Initializing,
                ..old(self)@
            }),
    {
        self.running = false;
        self.state = PtpState::Initializing;
    }

    /// The media clock at local time `now_ns`, in nanoseconds since the
    /// epoch: the RTP timestamp of a sample taken now.
    pub fn media_timestamp(&self, now_ns: u64) -> (ticks: u32)
        ensures
            ticks == media_ticks(now_ns, self@.offset_ns),
    {
        media_timestamp_at(now_ns, self.offset_ns)
    }

    /// Takes the stored pair of master time and local time into the
    /// offset. Without both there is nothing to do.
    pub fn process_sync(&mut self, now_ns: i64) -> (updated: bool)
        ensures
            final(self).interface_name() == old(self).interface_name(),
            final(self)@ == synced(old(self)@, now_ns),
            updated == (old(self)@.t1.is_some() && old(self)@.t2.is_some()),
    {
        let (master, local) = match (self.t1, self.t2) {
            (Some(m), Some(l)) => (m, l),
            _ => {
                return false;
            },
        };
        let diff: i128 = master as i128 - local as i128;
        let raw: i64 = if diff < -0x8000_0000_0000_0000 {
            -0x8000_0000_0000_0000
        } else if diff > 0x7fff_ffff_ffff_ffff {
            0x7fff_ffff_ffff_ffff
        } else {
            diff as i64
        };
        let current: i64 = self.offset_ns;
        let filtered: i64 = if current == 0 {
            raw
        } else {
            let sum: i128 = current as i128 * 7 + raw as i128;
            if sum >= 0 {
                (sum / 8) as i64
            } else {
                (-((-sum) / 8)) as i64
            }
        };
        self.offset_ns = filtered;
        self.stats.offset_ns = filtered;
        if self.stats.sync_count < u64::MAX {
            self.stats.sync_count = self.stats.sync_count + 1;
        }
        self.stats.clock_accuracy_ns = if raw >= current {
            (raw as i128 - current as i128) as u64
        } else {
            (current as i128 - raw as i128) as u64
        };
        self.last_sync = Some(now_ns);
        self.state = PtpState::Slave;
        true
    }

    /// Takes a datagram from the event port, received at local time
    /// `now_ns`. A Sync of the clock's domain is noted with its arrival
    /// time; when it carries its own timestamp the offset is moved at once.
    pub fn handle_event_message(&mut self, data: &[u8], now_ns: i64) -> (event: PtpEvent)
        ensures
            final(self).interface_name() == old(self).interface_name(),
            final(self)@ == after_event_message(old(self)@, data@, now_ns),
            event == if data@.len() < 34 || data@[4] != old(self)@.domain || message_kind(data@[0])
                != PtpMessageType::Sync {
                PtpEvent::Ignored
            } else if data@[6] / 2 % 2 == 1 || data@.len() < 44 {
                PtpEvent::SyncPending
            } else {
                PtpEvent::OffsetUpdated
            },
    {
        if data.len() < PTP_HEADER_LEN {
            return PtpEvent::Ignored;
        }
        if data[4] != self.domain || data[0] % 16 != 0 {
            return PtpEvent::Ignored;
        }
        self.t2 = Some(now_ns);
        self.sync_sequence = data[30] as u16 * 256 + data[31] as u16;
        let two_step = data[6] / 2 % 2 == 1;
        if two_step || data.len() < PTP_TIMED_LEN {
            return PtpEvent::SyncPending;
        }
        let stamp = vstd::slice::slice_subrange(data, 34, 44);
        self.t1 = Some(extract_timestamp(stamp));
        self.process_sync(now_ns);
        PtpEvent::OffsetUpdated
    }

    /// Takes a datagram from the general port, received at local time
    /// `now_ns`. The Follow_Up of the last Sync brings the time of the
    /// master, and the offset is moved.
    pub fn handle_general_message(&mut self, data: &[u8], now_ns: i64) -> (event: PtpEvent)
        ensures
            final(self).interface_name() == old(self).interface_name(),
            final(self)@ == after_general_message(old(self)@, data@, now_ns),
            event == if !is_awaited_follow_up(old(self)@, data@) {
                PtpEvent::Ignored
            } else if old(self)@.t2.is_some() {
                PtpEvent::OffsetUpdated
            } else {
                PtpEvent::SyncPending
            },
    {
        if data.len() < PTP_TIMED_LEN {
            return PtpEvent::Ignored;
        }
        if data[4] != self.domain || data[0] % 16 != 8 {
            return PtpEvent::Ignored;
        }
        let sequence: u16 = data[30] as u16 * 256 + data[31] as u16;
        if sequence != self.sync_sequence {
            return PtpEvent::Ignored;
        }
        let stamp = vstd::slice::slice_subrange(data, 34, 44);
        self.t1 = Some(extract_timestamp(stamp));
        if self.process_sync(now_ns) {
            PtpEvent::OffsetUpdated
        } else {
            PtpEvent::SyncPending
        }
    }

    /// Looks at the time. A slave that has had no sync for more than
    /// three seconds goes into holdover and keeps its offset. Returns
    /// whether it did.
    pub fn check_holdover(&mut self, now_ns: i64) -> (lost: bool)
        ensures
            final(self).interface_name() == old(self).interface_name(),
            lost == sync_lost(old(self)@, now_ns),
            final(self)@ == if lost {
                ClockView { state: PtpState::Holdover, ..old(self)@ }
            } else {
                old(self)@
            },
    {
        let lost = match (self.state, self.last_sync) {
            (PtpState::Slave, Some(last)) => now_ns as i128 - last as i128 > HOLDOVER_AFTER_NS
                as i128,
            _ => false,
        };
        if lost {
            self.state = PtpState::Holdover;
        }
        lost
    }
}

/// An offset is published only by a sync: a clock is a slave after a
/// sync with both times known, and then it has counted a sync, unless the
/// count was full.
pub proof fn lemma_slave_after_sync(c: ClockView, now_ns: i64)
    requires
        c.t1.is_some(),
        c.t2.is_some(),
    ensures
        synced(c, now_ns).state == PtpState::Slave,
        synced(c, now_ns).last_sync == Some(now_ns),
        synced(c, now_ns).stats.sync_count > 0,
        synced(c, now_ns).stats.offset_ns == synced(c, now_ns).offset_ns,
{
}

/// A clock that meets the same raw offset again and again stays on it:
/// once the offset equals the raw offset, smoothing leaves it there.
pub proof fn lemma_smoothing_fixpoint(offset: i64)
    ensures
        smoothed(offset, offset as int) == offset,
{
}

/// Smoothing never moves the offset past the raw offset: the new offset
/// lies between the old one and the measurement.
pub proof fn lemma_smoothing_between(prev: i64, raw: i64)
    ensures
        prev <= raw ==> prev <= smoothed(prev, raw as int) <= raw,
        raw <= prev ==> raw <= smoothed(prev, raw as int) <= prev,
{
}

} // verus!
