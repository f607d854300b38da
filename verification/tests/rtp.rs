use audiomultiverse::jitter::JitterBuffer;
use audiomultiverse::net::Ipv4Addr;
use audiomultiverse::rtp::{
    decode_l24, encode_l24, encode_packet, Aes67Format, PacketOutcome, RtpHeader, RtpReceiver,
    RtpSender,
};

#[test]
fn test_rtp_header_roundtrip() {
    let header = RtpHeader {
        version: 2,
        padding: false,
        extension: false,
        csrc_count: 0,
        marker: true,
        payload_type: 97,
        sequence: 12345,
        timestamp: 0xDEADBEEF,
        ssrc: 0xCAFEBABE,
    };

    let bytes = header.to_bytes();
    let parsed = RtpHeader::from_bytes(&bytes).unwrap();

    assert_eq!(parsed.version, 2);
    assert_eq!(parsed.marker, true);
    assert_eq!(parsed.payload_type, 97);
    assert_eq!(parsed.sequence, 12345);
    assert_eq!(parsed.timestamp, 0xDEADBEEF);
    assert_eq!(parsed.ssrc, 0xCAFEBABE);
}

#[test]
fn test_l24_decode() {
    // 0x7FFFFF = max positive = ~1.0
    let data = [0x7F, 0xFF, 0xFF];
    let samples = decode_l24(&data);
    assert!((samples[0] as f32 / 8388607.0 - 1.0).abs() < 0.001);

    // 0x800000 = max negative = ~-1.0
    let data = [0x80, 0x00, 0x00];
    let samples = decode_l24(&data);
    assert!((samples[0] as f32 / 8388607.0 + 1.0).abs() < 0.001);

    // 0x000000 = zero
    let data = [0x00, 0x00, 0x00];
    let samples = decode_l24(&data);
    assert_eq!(samples[0] as f32 / 8388607.0, 0.0);
}

#[test]
fn test_jitter_buffer() {
    let mut jb = JitterBuffer::new(100, 0.0f32);

    jb.push_samples(&[0.1, 0.2, 0.3, 0.4]);
    assert_eq!(jb.available(), 4);

    let mut out = [0.0; 2];
    let read = jb.pop_samples(&mut out);
    assert_eq!(read, 2);
    assert_eq!(out[0], 0.1);
    assert_eq!(out[1], 0.2);
    assert_eq!(jb.available(), 2);
}

#[test]
fn header_bytes_are_laid_out_as_on_the_wire() {
    let header = RtpHeader {
        version: 2,
        padding: true,
        extension: false,
        csrc_count: 3,
        marker: true,
        payload_type: 97,
        sequence: 0x0102,
        timestamp: 0x03040506,
        ssrc: 0x0708090A,
    };
    assert_eq!(
        header.to_bytes(),
        [0xA3, 0xE1, 0x01, 0x02, 0x03, 0x04, 0x05, 0x06, 0x07, 0x08, 0x09, 0x0A]
    );
}

#[test]
fn new_header_is_version_two_with_flags_clear() {
    let h = RtpHeader::new(97, 42);
    assert_eq!(h.to_bytes(), [0x80, 97, 0, 0, 0, 0, 0, 0, 0, 0, 0, 42]);
    assert_eq!(RtpHeader::from_bytes(&h.to_bytes()), Some(h));
}

#[test]
fn header_parse_rejects_short_and_foreign_packets() {
    assert_eq!(RtpHeader::from_bytes(&[0x80; 11]), None);
    assert_eq!(RtpHeader::from_bytes(&[]), None);
    // version 1 and version 3
    assert_eq!(RtpHeader::from_bytes(&[0x40, 97, 0, 0, 0, 0, 0, 0, 0, 0, 0, 0]), None);
    assert_eq!(RtpHeader::from_bytes(&[0xC0, 97, 0, 0, 0, 0, 0, 0, 0, 0, 0, 0]), None);
    assert!(RtpHeader::from_bytes(&[0x80, 97, 0, 0, 0, 0, 0, 0, 0, 0, 0, 0, 9, 9]).is_some());
}

#[test]
fn header_fields_are_cut_to_their_width() {
    let mut h = RtpHeader::new(0xFF, 1);
    h.csrc_count = 0x1F;
    let parsed = RtpHeader::from_bytes(&h.to_bytes()).unwrap();
    assert_eq!(parsed.payload_type, 0x7F);
    assert_eq!(parsed.csrc_count, 0x0F);
    assert!(parsed.marker == false);
}

#[test]
fn format_default_and_packet_size() {
    let f = Aes67Format::default();
    assert_eq!(f.sample_rate, 48000);
    assert_eq!(f.channels, 2);
    assert_eq!(f.bits_per_sample, 24);
    assert_eq!(f.samples_per_packet, 48);
    assert_eq!(f.bytes_per_packet(), 288);
    let wide = Aes67Format { sample_rate: 48000, channels: 8, bits_per_sample: 24, samples_per_packet: 48 };
    assert_eq!(wide.bytes_per_packet(), 1152);
    assert_eq!(wide.interleaved_per_packet(), 384);
}

#[test]
fn l24_encodes_big_endian_twos_complement() {
    assert_eq!(encode_l24(0), [0, 0, 0]);
    assert_eq!(encode_l24(1), [0, 0, 1]);
    assert_eq!(encode_l24(-1), [0xFF, 0xFF, 0xFF]);
    assert_eq!(encode_l24(8388607), [0x7F, 0xFF, 0xFF]);
    assert_eq!(encode_l24(-8388607), [0x80, 0x00, 0x01]);
    assert_eq!(encode_l24(0x123456), [0x12, 0x34, 0x56]);
}

#[test]
fn l24_clamps_what_does_not_fit() {
    assert_eq!(encode_l24(8388608), [0x7F, 0xFF, 0xFF]);
    assert_eq!(encode_l24(i32::MAX), [0x7F, 0xFF, 0xFF]);
    assert_eq!(encode_l24(-8388608), [0x80, 0x00, 0x01]);
    assert_eq!(encode_l24(i32::MIN), [0x80, 0x00, 0x01]);
}

#[test]
fn l24_round_trip_of_full_scale_and_zero() {
    // -1, 0 and +1 after scaling by 2^23 - 1
    for s in [-1.0f32, 0.0, 1.0] {
        let scaled = (s * 8388607.0) as i32;
        let back = decode_l24(&encode_l24(scaled));
        assert_eq!(back, vec![scaled]);
        assert!((back[0] as f32 / 8388607.0 - s).abs() <= 1.0 / 8388608.0);
    }
    for v in [-8388607, -4194304, -2, 5, 1000, 4194303, 8388607] {
        assert_eq!(decode_l24(&encode_l24(v)), vec![v]);
    }
}

#[test]
fn l24_decode_ignores_a_trailing_fragment() {
    assert_eq!(decode_l24(&[0, 0, 1, 0, 0]), vec![1]);
    assert_eq!(decode_l24(&[0, 0]), Vec::<i32>::new());
    assert_eq!(decode_l24(&[0x80, 0, 0, 0xFF, 0xFF, 0xFE]), vec![-8388608, -2]);
}

#[test]
fn packet_is_header_then_payload() {
    let mut h = RtpHeader::new(97, 0x01020304);
    h.sequence = 7;
    h.timestamp = 48;
    let packet = encode_packet(&h, &[1, -1, 8388607]);
    assert_eq!(
        packet,
        vec![
            0x80, 97, 0, 7, 0, 0, 0, 48, 1, 2, 3, 4, 0, 0, 1, 0xFF, 0xFF, 0xFF, 0x7F, 0xFF, 0xFF
        ]
    );
    assert_eq!(encode_packet(&h, &[]).len(), 12);
}

#[test]
fn sender_counts_packets_and_wraps_the_sequence() {
    let f = Aes67Format::default();
    let mut tx = RtpSender::with_identity(Ipv4Addr::new(239, 69, 1, 100), 5004, f, 99, 65535);
    assert_eq!(tx.ssrc(), 99);
    assert_eq!(tx.port(), 5004);
    assert_eq!(tx.multicast_addr(), Ipv4Addr::new(239, 69, 1, 100));
    let first = tx.next_packet(&[0, 0], 1000);
    let second = tx.next_packet(&[0, 0], 1000);
    assert_eq!(RtpHeader::from_bytes(&first).unwrap().sequence, 65535);
    assert_eq!(RtpHeader::from_bytes(&second).unwrap().sequence, 0);
    assert_eq!(RtpHeader::from_bytes(&second).unwrap().timestamp, 1000);
    assert_eq!(RtpHeader::from_bytes(&second).unwrap().ssrc, 99);
    assert_eq!(RtpHeader::from_bytes(&second).unwrap().payload_type, 97);
}

#[test]
fn sender_with_random_identity_keeps_its_stream() {
    let f = Aes67Format::default();
    let mut tx = RtpSender::new(Ipv4Addr::new(239, 69, 1, 100), 5004, f);
    assert_eq!(tx.format(), f);
    let id = tx.ssrc();
    let a = RtpHeader::from_bytes(&tx.next_packet(&[1, 2], 5)).unwrap();
    let b = RtpHeader::from_bytes(&tx.next_packet(&[3, 4], 6)).unwrap();
    assert_eq!(a.ssrc, id);
    assert_eq!(b.ssrc, id);
    assert_eq!(b.sequence, a.sequence.wrapping_add(1));
}

#[test]
fn send_cuts_samples_into_packets() {
    let f = Aes67Format { sample_rate: 48000, channels: 2, bits_per_sample: 24, samples_per_packet: 48 };
    let mut tx = RtpSender::with_identity(Ipv4Addr::new(239, 69, 1, 100), 5004, f, 1, 10);
    // 96 + 96 + 8 samples: two full packets and a short one
    let samples: Vec<i32> = (0..200).collect();
    let packets = tx.send(&samples, 777);
    assert_eq!(packets.len(), 3);
    assert_eq!(packets[0].len(), 12 + 96 * 3);
    assert_eq!(packets[1].len(), 12 + 96 * 3);
    assert_eq!(packets[2].len(), 12 + 8 * 3);
    for (k, p) in packets.iter().enumerate() {
        let h = RtpHeader::from_bytes(p).unwrap();
        assert_eq!(h.sequence, 10 + k as u16);
        assert_eq!(h.timestamp, 777);
    }
    assert_eq!(decode_l24(&packets[1][12..])[0], 96);
    assert_eq!(decode_l24(&packets[2][12..]), vec![192, 193, 194, 195, 196, 197, 198, 199]);
    // a sample that fills no whole frame is not sent
    assert_eq!(tx.send(&[5], 0).len(), 0);
    assert_eq!(tx.send(&[], 0).len(), 0);
    let odd = tx.send(&[1, 2, 3], 0);
    assert_eq!(odd.len(), 1);
    assert_eq!(decode_l24(&odd[0][12..]), vec![1, 2, 3]);
}

#[test]
fn receiver_queues_payload_and_reports_loss() {
    let f = Aes67Format::default();
    let mut rx = RtpReceiver::new(Ipv4Addr::new(239, 69, 1, 100), 5004, f);
    assert!(!rx.is_receiving());
    let mut h = RtpHeader::new(97, 5);
    h.sequence = 100;
    let out = rx.handle_packet(&encode_packet(&h, &[1, 2, 3, 4]));
    assert_eq!(out, PacketOutcome::Accepted { sequence: 100, lost: 0, samples: 4 });
    assert!(rx.is_receiving());
    h.sequence = 101;
    assert_eq!(
        rx.handle_packet(&encode_packet(&h, &[5, 6])),
        PacketOutcome::Accepted { sequence: 101, lost: 0, samples: 2 }
    );
    // 102 and 103 are missing
    h.sequence = 104;
    assert_eq!(
        rx.handle_packet(&encode_packet(&h, &[7])),
        PacketOutcome::Accepted { sequence: 104, lost: 2, samples: 1 }
    );
    // a jump of 100 or more is not counted as loss
    h.sequence = 205;
    assert_eq!(
        rx.handle_packet(&encode_packet(&h, &[8])),
        PacketOutcome::Accepted { sequence: 205, lost: 0, samples: 1 }
    );
    // a packet that comes late is none either
    h.sequence = 204;
    assert_eq!(
        rx.handle_packet(&encode_packet(&h, &[9])),
        PacketOutcome::Accepted { sequence: 204, lost: 0, samples: 1 }
    );
    let mut buf = [0i32; 12];
    assert_eq!(rx.read(&mut buf), 9);
    assert_eq!(buf, [1, 2, 3, 4, 5, 6, 7, 8, 9, 0, 0, 0]);
    assert!(!rx.is_receiving());
}

#[test]
fn receiver_counts_loss_across_the_wrap() {
    let f = Aes67Format::default();
    let mut rx = RtpReceiver::new(Ipv4Addr::new(239, 69, 1, 100), 5004, f);
    let mut h = RtpHeader::new(97, 5);
    h.sequence = 65534;
    rx.handle_packet(&encode_packet(&h, &[1]));
    h.sequence = 1;
    // 65535 and 0 are missing
    assert_eq!(
        rx.handle_packet(&encode_packet(&h, &[1])),
        PacketOutcome::Accepted { sequence: 1, lost: 2, samples: 1 }
    );
}

#[test]
fn receiver_filters_by_source_and_rejects_garbage() {
    let f = Aes67Format::default();
    let mut rx = RtpReceiver::new(Ipv4Addr::new(239, 69, 1, 100), 5004, f);
    rx.set_expected_ssrc(7);
    let other = RtpHeader::new(97, 8);
    assert_eq!(rx.handle_packet(&encode_packet(&other, &[1, 2])), PacketOutcome::Rejected);
    assert_eq!(rx.handle_packet(&[1, 2, 3]), PacketOutcome::Rejected);
    assert_eq!(rx.handle_packet(&[0u8; 12]), PacketOutcome::Rejected);
    assert!(!rx.is_receiving());
    let own = RtpHeader::new(97, 7);
    assert_eq!(
        rx.handle_packet(&encode_packet(&own, &[1, 2])),
        PacketOutcome::Accepted { sequence: 0, lost: 0, samples: 2 }
    );
    assert_eq!(rx.format(), f);
    assert_eq!(rx.port(), 5004);
    assert_eq!(rx.multicast_addr(), Ipv4Addr::new(239, 69, 1, 100));
}

#[test]
fn loopback_of_alternating_half_scale() {
    // 96 samples of +0.5 and -0.5 through sender and receiver
    let f = Aes67Format { sample_rate: 48000, channels: 2, bits_per_sample: 24, samples_per_packet: 48 };
    let mut tx = RtpSender::with_identity(Ipv4Addr::new(239, 69, 1, 100), 5004, f, 1234, 1);
    let mut rx = RtpReceiver::new(Ipv4Addr::new(239, 69, 1, 100), 5004, f);
    let pcm: Vec<i32> = (0..96)
        .map(|i| if i % 2 == 0 { 0.5f32 } else { -0.5f32 })
        .map(|s| (s.clamp(-1.0, 1.0) * 8388607.0) as i32)
        .collect();
    for p in tx.send(&pcm, 0) {
        assert!(matches!(rx.handle_packet(&p), PacketOutcome::Accepted { .. }));
    }
    let mut out = [0i32; 96];
    let n = rx.read(&mut out);
    assert!(n >= 48);
    let mean: f32 =
        out[..n].iter().map(|&v| (v as f32 / 8388607.0).abs()).sum::<f32>() / n as f32;
    assert!(mean >= 0.49);
    assert_eq!(&out[..n], &pcm[..n]);
}

#[test]
fn jitter_values_come_out_in_order() {
    let mut jb = JitterBuffer::new(16, 0i32);
    jb.push_samples(&[1, 2, 3, 4, 5]);
    let mut out = [9i32; 5];
    assert_eq!(jb.pop_samples(&mut out), 5);
    assert_eq!(out, [1, 2, 3, 4, 5]);
    assert_eq!(jb.available(), 0);
}

#[test]
fn jitter_overflow_drops_the_oldest() {
    let mut jb = JitterBuffer::new(4, 0i32);
    jb.push_samples(&[1, 2, 3]);
    assert_eq!(jb.available(), 3);
    // the ring of four slots holds three samples; one more pushes 1 out
    jb.push_samples(&[4]);
    assert_eq!(jb.available(), 3);
    let mut out = [0i32; 3];
    assert_eq!(jb.pop_samples(&mut out), 3);
    assert_eq!(out, [2, 3, 4]);
    // capacity + 1 samples at once keep the newest three
    jb.push_samples(&[10, 11, 12, 13, 14]);
    let mut out = [0i32; 4];
    assert_eq!(jb.pop_samples(&mut out), 3);
    assert_eq!(out, [12, 13, 14, 0]);
}

#[test]
fn jitter_pop_on_empty_yields_silence() {
    let mut jb = JitterBuffer::new(8, 0.0f32);
    let mut out = [1.0f32; 4];
    assert_eq!(jb.pop_samples(&mut out), 0);
    assert_eq!(out, [0.0; 4]);
    let mut none: [f32; 0] = [];
    assert_eq!(jb.pop_samples(&mut none), 0);
}

#[test]
fn jitter_of_one_slot_holds_nothing() {
    let mut jb = JitterBuffer::new(1, 0u8);
    jb.push_samples(&[1, 2, 3]);
    assert_eq!(jb.available(), 0);
}

#[test]
fn jitter_wraps_around_its_ring() {
    let mut jb = JitterBuffer::new(5, 0i32);
    let mut out = [0i32; 2];
    for round in 0..10 {
        jb.push_samples(&[round, round + 100, round + 200]);
        assert_eq!(jb.pop_samples(&mut out), 2);
        assert_eq!(out, [round, round + 100]);
        let mut last = [0i32; 1];
        assert_eq!(jb.pop_samples(&mut last), 1);
        assert_eq!(last, [round + 200]);
    }
}
