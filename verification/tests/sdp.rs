use audiomultiverse::backend::NetworkDeviceType;
use audiomultiverse::net::Ipv4Addr;
use audiomultiverse::sap::{
    build_sap_packet, parse_sap_packet, sap_multicast_addr, SapDiscovery, SapEvent, SAP_PORT,
};
use audiomultiverse::sdp::{
    apply_line, generate_sdp, parse_sdp, read_millis, Aes67Stream, StreamDirection,
};

fn contains(hay: &[u8], needle: &str) -> bool {
    String::from_utf8_lossy(hay).contains(needle)
}

fn stream(name: &str, session: &str) -> Aes67Stream {
    Aes67Stream {
        name: name.as_bytes().to_vec(),
        session_id: session.as_bytes().to_vec(),
        origin: b"192.168.1.1".to_vec(),
        multicast_addr: Ipv4Addr::new(239, 69, 1, 1),
        port: 5004,
        channels: 8,
        sample_rate: 48000,
        bits_per_sample: 24,
        ptime_us: 1000,
        direction: StreamDirection::Send,
        sdp: Vec::new(),
    }
}

#[test]
fn test_parse_sdp() {
    let sdp = r#"v=0
o=- 12345 1 IN IP4 192.168.1.100
s=Test AES67 Stream
c=IN IP4 239.69.1.1/64
t=0 0
m=audio 5004 RTP/AVP 97
a=rtpmap:97 L24/48000/2
a=ptime:1.000
"#;

    let stream = parse_sdp(sdp.as_bytes(), "192.168.1.100".as_bytes().to_vec()).unwrap();

    assert_eq!(stream.name, "Test AES67 Stream".as_bytes());
    assert_eq!(stream.channels, 2);
    assert_eq!(stream.sample_rate, 48000);
    assert_eq!(stream.bits_per_sample, 24);
    assert_eq!(stream.port, 5004);
    assert_eq!(stream.multicast_addr, Ipv4Addr::new(239, 69, 1, 1));
}

#[test]
fn test_generate_sdp() {
    let stream = Aes67Stream {
        name: "Test Stream".as_bytes().to_vec(),
        session_id: "test123".as_bytes().to_vec(),
        origin: "192.168.1.1".as_bytes().to_vec(),
        multicast_addr: Ipv4Addr::new(239, 69, 1, 1),
        port: 5004,
        channels: 8,
        sample_rate: 48000,
        bits_per_sample: 24,
        ptime_us: 1000,
        direction: StreamDirection::Send,
        sdp: Vec::new(),
    };

    let sdp = generate_sdp(&stream, 1);

    assert!(contains(&sdp, "s=Test Stream"));
    assert!(contains(&sdp, "L24/48000/8"));
    assert!(contains(&sdp, "239.69.1.1"));
}

#[test]
fn generated_description_is_exact() {
    let sdp = generate_sdp(&stream("Test Stream", "test123"), 1700000000);
    let expected = "v=0\r\n\
        o=- test123 1700000000 IN IP4 192.168.1.1\r\n\
        s=Test Stream\r\n\
        c=IN IP4 239.69.1.1/64\r\n\
        t=0 0\r\n\
        m=audio 5004 RTP/AVP 97\r\n\
        a=rtpmap:97 L24/48000/8\r\n\
        a=ptime:1.000\r\n\
        a=ts-refclk:ptp=IEEE1588-2008:00-00-00-00-00-00-00-00:0\r\n\
        a=mediaclk:direct=0\r\n";
    assert_eq!(String::from_utf8(sdp).unwrap(), expected);
}

#[test]
fn packet_time_is_written_with_three_decimals() {
    let mut s = stream("a", "b");
    s.ptime_us = 125;
    assert!(contains(&generate_sdp(&s, 0), "a=ptime:0.125\r\n"));
    s.ptime_us = 4000;
    assert!(contains(&generate_sdp(&s, 0), "a=ptime:4.000\r\n"));
    s.ptime_us = 1007;
    assert!(contains(&generate_sdp(&s, 0), "a=ptime:1.007\r\n"));
    s.ptime_us = 0;
    assert!(contains(&generate_sdp(&s, 0), "a=ptime:0.000\r\n"));
}

#[test]
fn description_round_trip_keeps_the_stream() {
    for (bits, channels, rate, port) in [(24u8, 8u8, 48000u32, 5004u16), (16, 1, 44100, 6000), (24, 255, 96000, 65535)] {
        let mut s = stream("Stage Left  Rack", "x1");
        s.bits_per_sample = bits;
        s.channels = channels;
        s.sample_rate = rate;
        s.port = port;
        s.ptime_us = 333;
        s.multicast_addr = Ipv4Addr::new(239, 0, 255, 10);
        let text = generate_sdp(&s, 42);
        let back = parse_sdp(&text, b"10.0.0.1".to_vec()).unwrap();
        assert_eq!(back.name, s.name);
        assert_eq!(back.channels, channels);
        assert_eq!(back.sample_rate, rate);
        assert_eq!(back.bits_per_sample, bits);
        assert_eq!(back.port, port);
        assert_eq!(back.multicast_addr, s.multicast_addr);
        assert_eq!(back.origin, s.origin);
        assert_eq!(back.ptime_us, 333);
        assert_eq!(back.session_id, b"-_x1".to_vec());
        assert_eq!(back.direction, StreamDirection::Send);
        assert_eq!(back.sdp, text);
    }
}

#[test]
fn description_without_session_is_none() {
    assert!(parse_sdp(b"", b"h".to_vec()).is_none());
    assert!(parse_sdp(b"v=0\ns=Name\nm=audio 5004 RTP/AVP 97\n", b"h".to_vec()).is_none());
    // an origin line of fewer than six words names no session
    assert!(parse_sdp(b"o=- 1 2 IN IP4\n", b"h".to_vec()).is_none());
}

#[test]
fn description_defaults_and_fallbacks() {
    let s = parse_sdp(b"o=alice 77 1 IN IP4 10.1.2.3", b"fallback".to_vec()).unwrap();
    assert_eq!(s.session_id, b"alice_77".to_vec());
    assert_eq!(s.origin, b"10.1.2.3".to_vec());
    assert_eq!(s.name, b"AES67 Stream alice_77".to_vec());
    assert_eq!(s.port, 5004);
    assert_eq!(s.channels, 2);
    assert_eq!(s.sample_rate, 48000);
    assert_eq!(s.bits_per_sample, 24);
    assert_eq!(s.ptime_us, 1000);
    assert_eq!(s.multicast_addr, Ipv4Addr::new(0, 0, 0, 0));
    assert_eq!(s.sdp, b"o=alice 77 1 IN IP4 10.1.2.3".to_vec());

    let text = b"  o=u 1 1 IN IP4 h  \r\n\tm=audio nonsense RTP/AVP 97\r\na=rtpmap:96 L16/x/y\r\nc=IN IP4 300.1.1.1/5\r\na=ptime:abc\r\n";
    let s = parse_sdp(text, b"d".to_vec()).unwrap();
    assert_eq!(s.port, 5004);
    assert_eq!(s.bits_per_sample, 16);
    assert_eq!(s.sample_rate, 48000);
    assert_eq!(s.channels, 2);
    assert_eq!(s.multicast_addr, Ipv4Addr::new(0, 0, 0, 0));
    assert_eq!(s.ptime_us, 1000);
}

#[test]
fn lines_are_read_one_by_one() {
    let mut s = stream("", "");
    s.name.clear();
    apply_line(&mut s, b"s=Front  of House");
    assert_eq!(s.name, b"Front  of House".to_vec());
    apply_line(&mut s, b"m=audio 6000 RTP/AVP 96");
    assert_eq!(s.port, 6000);
    apply_line(&mut s, b"m=audio +6001");
    assert_eq!(s.port, 6001);
    apply_line(&mut s, b"m=audio 65536");
    assert_eq!(s.port, 5004);
    apply_line(&mut s, b"m=video 7000");
    assert_eq!(s.port, 5004);
    apply_line(&mut s, b"a=rtpmap:96 L16/44100/6");
    assert_eq!((s.bits_per_sample, s.sample_rate, s.channels), (16, 44100, 6));
    apply_line(&mut s, b"a=rtpmap:96 L24/96000");
    assert_eq!((s.bits_per_sample, s.sample_rate, s.channels), (24, 96000, 6));
    apply_line(&mut s, b"a=rtpmap:96 opus/48000/2");
    assert_eq!((s.bits_per_sample, s.sample_rate, s.channels), (24, 96000, 6));
    apply_line(&mut s, b"a=rtpmap:96 L24/1/256");
    assert_eq!((s.sample_rate, s.channels), (1, 2));
    apply_line(&mut s, b"c=IN IP4 239.1.2.3");
    assert_eq!(s.multicast_addr, Ipv4Addr::new(239, 1, 2, 3));
    apply_line(&mut s, b"c=IN IP4 239.1.2.04/32");
    assert_eq!(s.multicast_addr, Ipv4Addr::new(239, 1, 2, 3));
    apply_line(&mut s, b"c=IN IP4");
    assert_eq!(s.multicast_addr, Ipv4Addr::new(239, 1, 2, 3));
    apply_line(&mut s, b"a=ptime:0.125");
    assert_eq!(s.ptime_us, 125);
    apply_line(&mut s, b"a=ptime:4");
    assert_eq!(s.ptime_us, 4000);
    apply_line(&mut s, b"x=unknown");
    assert_eq!(s.ptime_us, 4000);
}

#[test]
fn milliseconds_are_read_as_microseconds() {
    assert_eq!(read_millis(b"1.000"), Some(1000));
    assert_eq!(read_millis(b"1"), Some(1000));
    assert_eq!(read_millis(b"1."), Some(1000));
    assert_eq!(read_millis(b"0.33"), Some(330));
    assert_eq!(read_millis(b"0.3339"), Some(333));
    assert_eq!(read_millis(b"20.5"), Some(20500));
    assert_eq!(read_millis(b"4294967.295"), Some(4294967295));
    assert_eq!(read_millis(b"4294967.296"), None);
    assert_eq!(read_millis(b"4294968"), None);
    assert_eq!(read_millis(b""), None);
    assert_eq!(read_millis(b".5"), None);
    assert_eq!(read_millis(b"1.5x"), None);
    assert_eq!(read_millis(b"-1"), None);
    assert_eq!(read_millis(b"1.2.3"), None);
}

#[test]
fn sap_packet_layout() {
    let p = build_sap_packet(b"ab", b"v=0\r\n", false);
    let mut expected = vec![0x20, 0, 0, 195, 0, 0, 0, 0];
    expected.extend_from_slice(b"application/sdp\0");
    expected.extend_from_slice(b"v=0\r\n");
    assert_eq!(p, expected);
    let d = build_sap_packet(b"ab", b"", true);
    assert_eq!(d[0], 0x24);
    assert_eq!(d.len(), 24);
    // the message identifier is the sum of the bytes modulo 65536
    let long = vec![0xFFu8; 300];
    let q = build_sap_packet(&long, b"", false);
    assert_eq!((q[2] as u32) * 256 + q[3] as u32, (300 * 255) % 65536);
    assert_eq!(SAP_PORT, 9875);
    assert_eq!(sap_multicast_addr(), Ipv4Addr::new(224, 2, 127, 254));
}

#[test]
fn sap_packet_round_trip() {
    let s = stream("Monitor Mix", "X_1");
    let text = generate_sdp(&s, 9);
    let packet = build_sap_packet(&s.session_id, &text, false);
    let back = parse_sap_packet(&packet, Ipv4Addr::new(10, 0, 0, 9)).unwrap();
    assert_eq!(back.name, b"Monitor Mix".to_vec());
    assert_eq!(back.sdp, text);
    assert_eq!(back.session_id, b"-_X_1".to_vec());
}

#[test]
fn sap_packets_that_announce_nothing() {
    let src = Ipv4Addr::new(10, 0, 0, 9);
    assert!(parse_sap_packet(&[], src).is_none());
    assert!(parse_sap_packet(&[0x20, 0, 0, 0, 0, 0, 0], src).is_none());
    // version 0 and version 2
    let body = b"o=- 1 1 IN IP4 h\n";
    let mut p = vec![0x00, 0, 0, 0, 0, 0, 0, 0];
    p.extend_from_slice(body);
    assert!(parse_sap_packet(&p, src).is_none());
    p[0] = 0x40;
    assert!(parse_sap_packet(&p, src).is_none());
    p[0] = 0x20;
    assert_eq!(parse_sap_packet(&p, src).unwrap().session_id, b"-_1".to_vec());
    // authentication data longer than the packet
    p[1] = 200;
    assert!(parse_sap_packet(&p, src).is_none());
    // nothing behind the payload type
    assert!(parse_sap_packet(&build_sap_packet(b"x", b"", true), src).is_none());
}

#[test]
fn sap_header_variants() {
    let src = Ipv4Addr::new(10, 0, 0, 9);
    let body = b"o=- 5 1 IN IP4 h\n";
    // one word of authentication data
    let mut p = vec![0x20, 1, 0, 0, 1, 2, 3, 4, 9, 9, 9, 9];
    p.extend_from_slice(body);
    assert_eq!(parse_sap_packet(&p, src).unwrap().session_id, b"-_5".to_vec());
    // an IPv6 origin of sixteen bytes
    let mut p = vec![0x30, 0, 0, 0];
    p.extend_from_slice(&[7u8; 16]);
    p.extend_from_slice(body);
    assert_eq!(parse_sap_packet(&p, src).unwrap().session_id, b"-_5".to_vec());
    // without an origin line the sender stands for the origin
    let mut p = vec![0x20, 0, 0, 0, 0, 0, 0, 0];
    p.extend_from_slice(b"o=- 5 1 IN IP4 h\ns=n\n");
    assert_eq!(parse_sap_packet(&p, src).unwrap().origin, b"h".to_vec());
}

#[test]
fn discovery_adds_replaces_and_withdraws() {
    let src = Ipv4Addr::new(192, 168, 1, 50);
    let mut d = SapDiscovery::new();
    assert!(d.streams().is_empty());

    let mut s = stream("Stage Box", "1");
    s.session_id = b"1".to_vec();
    s.multicast_addr = Ipv4Addr::new(239, 69, 1, 7);
    let text = b"v=0\r\no=X 1 1 IN IP4 192.168.1.50\r\ns=Stage Box\r\nc=IN IP4 239.69.1.7/64\r\nm=audio 5004 RTP/AVP 97\r\na=rtpmap:97 L24/48000/8\r\n".to_vec();
    let announce = build_sap_packet(b"X_1", &text, false);
    assert_eq!(d.handle_packet(&announce, src), SapEvent::Announced);
    let found = d.streams();
    assert_eq!(found.len(), 1);
    assert_eq!(found[0].session_id, b"X_1".to_vec());
    assert_eq!(found[0].channels, 8);
    assert_eq!(found[0].sample_rate, 48000);
    assert_eq!(found[0].bits_per_sample, 24);
    assert_eq!(found[0].multicast_addr, Ipv4Addr::new(239, 69, 1, 7));
    assert_eq!(found[0].port, 5004);

    // the same session again takes the place of the first
    assert_eq!(d.handle_packet(&announce, src), SapEvent::Announced);
    assert_eq!(d.streams().len(), 1);

    // another session
    let other = build_sap_packet(b"Y_2", b"o=Y 2 1 IN IP4 h\ns=Other\n", false);
    assert_eq!(d.handle_packet(&other, src), SapEvent::Announced);
    assert_eq!(d.streams().len(), 2);
    assert_eq!(d.find(b"Y_2").unwrap().name, b"Other".to_vec());
    assert!(d.find(b"Z").is_none());

    // garbage changes nothing
    assert_eq!(d.handle_packet(&[1, 2, 3], src), SapEvent::Ignored);
    assert_eq!(d.streams().len(), 2);

    // the same packet with the deletion bit set
    let mut withdraw = announce.clone();
    withdraw[0] |= 0x04;
    assert_eq!(d.handle_packet(&withdraw, src), SapEvent::Withdrawn);
    let left = d.streams();
    assert_eq!(left.len(), 1);
    assert_eq!(left[0].session_id, b"Y_2".to_vec());
    // withdrawing what is not there
    assert_eq!(d.handle_packet(&withdraw, src), SapEvent::Withdrawn);
    assert_eq!(d.streams().len(), 1);
}

#[test]
fn discovery_as_devices() {
    let mut d = SapDiscovery::new();
    let p = build_sap_packet(
        b"a_1",
        b"o=a 1 1 IN IP4 10.0.0.5\ns=Desk\nc=IN IP4 239.1.1.1/64\na=rtpmap:97 L24/48000/4\n",
        false,
    );
    d.handle_packet(&p, Ipv4Addr::new(10, 0, 0, 5));
    let devices = d.as_devices();
    assert_eq!(devices.len(), 1);
    assert_eq!(devices[0].id, b"a_1".to_vec());
    assert_eq!(devices[0].name, b"Desk".to_vec());
    assert_eq!(devices[0].device_type, NetworkDeviceType::Transmitter);
    assert_eq!(devices[0].channels, 4);
    assert_eq!(devices[0].sample_rate, 48000);
    assert_eq!(devices[0].ip_address, Some(b"10.0.0.5".to_vec()));
    assert_eq!(devices[0].multicast_group, Some(b"239.1.1.1".to_vec()));
}

#[test]
fn announcing_and_withdrawing_own_streams() {
    let mut d = SapDiscovery::new();
    let s = stream("Out", "me_1");
    let packet = d.announce(s.duplicate(), 5);
    assert_eq!(packet, build_sap_packet(b"me_1", &generate_sdp(&s, 5), false));
    d.announce(stream("Out 2", "me_2"), 5);
    d.announce(stream("Out again", "me_1"), 6);
    assert_eq!(d.announced().len(), 3);
    let gone = d.remove_announcement(b"me_1");
    assert_eq!(gone, build_sap_packet(b"me_1", b"", true));
    let left = d.announced();
    assert_eq!(left.len(), 1);
    assert_eq!(left[0].session_id, b"me_2".to_vec());
    assert!(d.streams().is_empty());
}
