use audiomultiverse::ptp::{
    extract_timestamp, media_timestamp_at, PtpClock, PtpEvent, PtpState, PtpStats,
};

#[test]
fn test_extract_timestamp() {
    let data: [u8; 10] = [
        0x00, 0x00, 0x65, 0x8D, 0x1E, 0x00, // seconds
        0x1D, 0xCD, 0x65, 0x00, // nanoseconds (500000000)
    ];

    let ts = extract_timestamp(&data);
    // 48 bits of seconds, 0x658D1E00, then 32 bits of nanoseconds
    let expected = 1_703_747_072_500_000_000_i64;
    assert_eq!(ts, expected);
    assert_eq!(ts, 1703747072_i64 * 1_000_000_000 + 500000000);
}

#[test]
fn test_ptp_clock_creation() {
    let clock = PtpClock::new("eth0");
    assert_eq!(clock.state(), PtpState::Initializing);
    assert_eq!(clock.offset_ns(), 0);
    assert!(!clock.is_synchronized());
}

fn timestamp_bytes(ns: i64) -> [u8; 10] {
    let s = (ns / 1_000_000_000) as u64;
    let n = (ns % 1_000_000_000) as u32;
    let sb = s.to_be_bytes();
    let nb = n.to_be_bytes();
    [sb[2], sb[3], sb[4], sb[5], sb[6], sb[7], nb[0], nb[1], nb[2], nb[3]]
}

fn message(kind: u8, domain: u8, two_step: bool, sequence: u16, t1: i64) -> Vec<u8> {
    let mut m = vec![0u8; 44];
    m[0] = kind;
    m[1] = 2;
    m[4] = domain;
    m[6] = if two_step { 0x02 } else { 0x00 };
    m[30] = (sequence >> 8) as u8;
    m[31] = sequence as u8;
    m[34..44].copy_from_slice(&timestamp_bytes(t1));
    m
}

#[test]
fn timestamp_edge_cases() {
    assert_eq!(extract_timestamp(&[]), 0);
    assert_eq!(extract_timestamp(&[1; 9]), 0);
    assert_eq!(extract_timestamp(&[0; 10]), 0);
    assert_eq!(extract_timestamp(&[0, 0, 0, 0, 0, 1, 0, 0, 0, 1]), 1_000_000_001);
    assert_eq!(
        extract_timestamp(&[0x00, 0x00, 0x65, 0x92, 0x00, 0x80, 0x1D, 0xCD, 0x65, 0x00]),
        1704067200_i64 * 1_000_000_000 + 500000000
    );
    // more seconds than fit are held to the largest value
    assert_eq!(extract_timestamp(&[0xFF; 10]), i64::MAX);
    // bytes behind the tenth are not looked at
    assert_eq!(extract_timestamp(&[0, 0, 0, 0, 0, 0, 0, 0, 0, 7, 9, 9]), 7);
}

#[test]
fn stats_default_is_all_zero() {
    assert_eq!(
        PtpStats::default(),
        PtpStats { offset_ns: 0, path_delay_ns: 0, sync_count: 0, clock_accuracy_ns: 0, steps_removed: 0 }
    );
}

#[test]
fn start_and_stop_are_idempotent() {
    let mut clock = PtpClock::new("eth0");
    assert_eq!(clock.interface(), "eth0");
    assert!(clock.start());
    assert_eq!(clock.state(), PtpState::Listening);
    assert!(clock.is_running());
    assert!(!clock.start());
    assert_eq!(clock.state(), PtpState::Listening);
    clock.stop();
    clock.stop();
    assert_eq!(clock.state(), PtpState::Initializing);
    assert!(!clock.is_running());
}

#[test]
fn domain_is_held_to_127() {
    let mut clock = PtpClock::new("eth0");
    clock.set_domain(200);
    assert_eq!(clock.domain(), 127);
    clock.set_domain(5);
    assert_eq!(clock.domain(), 5);
}

#[test]
fn offset_converges_and_holdover_keeps_it() {
    let mut clock = PtpClock::new("eth0");
    clock.start();
    let mut now: i64 = 1_700_000_000_000_000_000;
    for seq in 0..8u16 {
        let sync = message(0x0, 0, false, seq, now + 1_000_000);
        assert_eq!(clock.handle_event_message(&sync, now), PtpEvent::OffsetUpdated);
        assert!(!clock.check_holdover(now));
        now += 1_000_000_000;
    }
    let offset = clock.offset_ns();
    assert!((offset - 1_000_000).abs() <= 10_000);
    assert_eq!(offset, 1_000_000);
    assert_eq!(clock.state(), PtpState::Slave);
    assert!(clock.is_synchronized());
    assert_eq!(clock.stats().sync_count, 8);
    assert_eq!(clock.stats().offset_ns, 1_000_000);
    // three seconds after the last sync the clock still follows
    assert!(!clock.check_holdover(now - 1_000_000_000 + 3_000_000_000));
    assert_eq!(clock.state(), PtpState::Slave);
    // four seconds after the last sync it is in holdover
    assert!(clock.check_holdover(now - 1_000_000_000 + 4_000_000_000));
    assert_eq!(clock.state(), PtpState::Holdover);
    assert_eq!(clock.offset_ns(), offset);
    assert!(!clock.is_synchronized());
    assert!(!clock.check_holdover(now + 10_000_000_000));
    assert_eq!(clock.state(), PtpState::Holdover);
}

#[test]
fn offset_is_smoothed_by_an_eighth() {
    let mut clock = PtpClock::new("eth0");
    let now: i64 = 1_000_000_000_000;
    clock.handle_event_message(&message(0, 0, false, 1, now + 8000), now);
    assert_eq!(clock.offset_ns(), 8000);
    clock.handle_event_message(&message(0, 0, false, 2, now + 16000), now);
    // (7 * 8000 + 16000) / 8
    assert_eq!(clock.offset_ns(), 9000);
    assert_eq!(clock.stats().clock_accuracy_ns, 8000);
    // toward zero for negative sums: (7 * 9000 - 63005) / 8 = -5 / 8
    clock.handle_event_message(&message(0, 0, false, 3, now - 63005), now);
    assert_eq!(clock.offset_ns(), 0);
    // an offset of zero takes the next measurement as it is
    clock.handle_event_message(&message(0, 0, false, 4, now - 500), now);
    assert_eq!(clock.offset_ns(), -500);
    clock.handle_event_message(&message(0, 0, false, 5, now - 1300), now);
    // (7 * -500 - 1300) / 8 = -600
    assert_eq!(clock.offset_ns(), -600);
    clock.handle_event_message(&message(0, 0, false, 6, now - 1303), now);
    // (7 * -600 - 1303) / 8 = -5503 / 8, rounded toward zero
    assert_eq!(clock.offset_ns(), -687);
}

#[test]
fn two_step_sync_waits_for_its_follow_up() {
    let mut clock = PtpClock::new("eth0");
    clock.start();
    let now: i64 = 5_000_000_000;
    assert_eq!(
        clock.handle_event_message(&message(0x0, 0, true, 77, 0), now),
        PtpEvent::SyncPending
    );
    assert_eq!(clock.state(), PtpState::Listening);
    assert_eq!(clock.offset_ns(), 0);
    // a Follow_Up of another Sync is passed over
    assert_eq!(
        clock.handle_general_message(&message(0x8, 0, false, 78, now + 250), now + 10),
        PtpEvent::Ignored
    );
    assert_eq!(
        clock.handle_general_message(&message(0x8, 0, false, 77, now + 250), now + 10),
        PtpEvent::OffsetUpdated
    );
    assert_eq!(clock.offset_ns(), 250);
    assert_eq!(clock.state(), PtpState::Slave);
}

#[test]
fn messages_that_are_not_acted_on() {
    let mut clock = PtpClock::new("eth0");
    let now: i64 = 5_000_000_000;
    // another domain
    assert_eq!(clock.handle_event_message(&message(0x0, 1, false, 1, now), now), PtpEvent::Ignored);
    // too short
    assert_eq!(clock.handle_event_message(&[0u8; 33], now), PtpEvent::Ignored);
    // Delay_Req on the event port, Announce and Delay_Resp on the general port
    assert_eq!(clock.handle_event_message(&message(0x1, 0, false, 1, now), now), PtpEvent::Ignored);
    assert_eq!(clock.handle_general_message(&message(0xB, 0, false, 0, now), now), PtpEvent::Ignored);
    assert_eq!(clock.handle_general_message(&message(0x9, 0, false, 0, now), now), PtpEvent::Ignored);
    // a Follow_Up before any Sync has no arrival time to go with
    assert_eq!(
        clock.handle_general_message(&message(0x8, 0, false, 0, now), now),
        PtpEvent::SyncPending
    );
    assert_eq!(clock.state(), PtpState::Initializing);
    assert_eq!(clock.offset_ns(), 0);
    assert_eq!(clock.stats().sync_count, 0);
    // a Sync without room for a timestamp is noted but moves nothing
    assert_eq!(clock.handle_event_message(&[0u8; 40], now), PtpEvent::SyncPending);
    assert_eq!(clock.offset_ns(), 0);
    assert!(!clock.process_sync(now) || clock.state() == PtpState::Slave);
}

#[test]
fn media_timestamp_is_the_corrected_time_in_ticks() {
    let mut clock = PtpClock::new("eth0");
    assert_eq!(clock.media_timestamp(0), 0);
    assert_eq!(clock.media_timestamp(1_000_000_000), 48000);
    assert_eq!(clock.media_timestamp(20_833), 0);
    assert_eq!(clock.media_timestamp(20_834), 1);
    // 2^32 ticks wrap to zero: 4294967296 / 48000 s = 89478485.333.. s
    assert_eq!(clock.media_timestamp(89_478_485_333_333_334), 0);
    assert_eq!(clock.media_timestamp(89_478_485_333_333_333), u32::MAX);
    let now: i64 = 1_000_000_000;
    clock.handle_event_message(&message(0, 0, false, 1, now + 1_000_000_000), now);
    assert_eq!(clock.offset_ns(), 1_000_000_000);
    assert_eq!(clock.media_timestamp(1_000_000_000), 96000);
    // without a master the media clock is the local time in ticks
    assert_eq!(media_timestamp_at(1_000_000_000, 0), 48000);
    assert_eq!(media_timestamp_at(1_000_000_000, -1_000_000_000), 0);
    // a tick is 20833.3 ns, and the division rounds toward zero
    assert_eq!(media_timestamp_at(0, -20_833), 0);
    assert_eq!(media_timestamp_at(0, -20_834), u32::MAX);
    assert_eq!(media_timestamp_at(0, -1_000_000_000), 0u32.wrapping_sub(48000));
    let mut behind = PtpClock::new("eth0");
    behind.handle_event_message(&message(0, 0, false, 1, 0), 2_000_000_000);
    assert_eq!(behind.offset_ns(), -2_000_000_000);
    // one second before the epoch: -48000 ticks modulo 2^32
    assert_eq!(behind.media_timestamp(1_000_000_000), 0u32.wrapping_sub(48000));
}
