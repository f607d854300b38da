use audiomultiverse::engine::Aes67SubscribeResult;
use audiomultiverse::mixer::Mixer;
use audiomultiverse::net::Ipv4Addr;
use audiomultiverse::protocol::{ApiResponse, ClientInfo, ClientMessage, ServerMessage};
use audiomultiverse::sdp::{Aes67Stream, StreamDirection};
use audiomultiverse::session::{
    delivery, error_message, handle_client_message, meter_message, on_frame, on_hub_event,
    parse_error_delivery, parse_error_message, subscription_reply, unsubscription_reply, welcome_message,
    ClientCounter, Delivery, Dispatch, Frame, FrameAction, HubAction, HubEvent, PtpStatus,
    ServerContext,
};

fn bits(v: f32) -> u32 {
    v.to_bits()
}

fn num(b: u32) -> f32 {
    f32::from_bits(b)
}

fn context() -> ServerContext {
    ServerContext {
        version: "1.2.3".to_string(),
        client_count: 2,
        now_ms: 1700000000123,
        ptp: None,
        streams: None,
        engine_available: false,
    }
}

fn reply_of(d: Dispatch) -> (Option<ServerMessage>, bool) {
    match d {
        Dispatch::Reply { reply, broadcast } => (reply, broadcast),
        _ => panic!("a reply was expected"),
    }
}

fn error_code(m: &Option<ServerMessage>) -> (String, String) {
    match m {
        Some(ServerMessage::Error { code, message }) => (code.clone(), message.clone()),
        _ => panic!("an error was expected"),
    }
}

#[test]
fn fader_clamp_and_echo() {
    let mut mixer = Mixer::new(1, 2);
    let ctx = context();
    let msg = ClientMessage::SetFader { channel: 0, value: bits(2.0) };
    let (reply, broadcast) = reply_of(handle_client_message(msg, &mut mixer, &ctx));
    assert!(broadcast);
    // the sender gets the update, and so does every client through the hub
    match delivery(reply, broadcast) {
        Delivery::ToSenderAndAll(ServerMessage::ChannelUpdated(s)) => {
            assert_eq!(s.id, 0);
            assert_eq!(num(s.fader), 1.25);
        }
        _ => panic!("the update goes to all clients"),
    }
    assert_eq!(num(mixer.get_channel(0).unwrap().fader), 1.25);
}

#[test]
fn unknown_channel_gets_no_update() {
    let mut mixer = Mixer::new(8, 2);
    let ctx = context();
    let msg = ClientMessage::SetFader { channel: 9999, value: bits(0.5) };
    let (reply, broadcast) = reply_of(handle_client_message(msg, &mut mixer, &ctx));
    // the sender is told, and nobody else
    assert!(!broadcast);
    assert_eq!(
        error_code(&reply),
        ("CHANNEL_NOT_FOUND".to_string(), "Kanal 9999 nicht gefunden".to_string())
    );
    assert!(matches!(delivery(reply, broadcast), Delivery::ToSender(ServerMessage::Error { .. })));
    let (state, _) = reply_of(handle_client_message(ClientMessage::GetState, &mut mixer, &ctx));
    match state {
        Some(ServerMessage::State(s)) => {
            assert_eq!(s.channels.len(), 8);
            assert!(s.channels.iter().all(|c| num(c.fader) == 0.75));
        }
        _ => panic!("the state was expected"),
    }
}

#[test]
fn every_strip_command_refuses_an_unknown_strip() {
    let mut mixer = Mixer::new(4, 2);
    mixer.set_solo(1, true);
    let ctx = context();
    let cases = vec![
        ClientMessage::SetFader { channel: 4, value: bits(1.0) },
        ClientMessage::SetMute { channel: 4, muted: true },
        ClientMessage::SetSolo { channel: 4, solo: true },
        ClientMessage::SetPan { channel: 5, value: bits(1.0) },
        ClientMessage::SetGain { channel: 6, value: bits(1.0) },
        ClientMessage::SetChannelName { channel: u32::MAX, name: "x".to_string() },
    ];
    for msg in cases {
        let channel = match &msg {
            ClientMessage::SetFader { channel, .. }
            | ClientMessage::SetMute { channel, .. }
            | ClientMessage::SetSolo { channel, .. }
            | ClientMessage::SetPan { channel, .. }
            | ClientMessage::SetGain { channel, .. }
            | ClientMessage::SetChannelName { channel, .. } => *channel,
            _ => unreachable!(),
        };
        let (reply, broadcast) = reply_of(handle_client_message(msg, &mut mixer, &ctx));
        assert!(!broadcast);
        assert_eq!(
            error_code(&reply),
            ("CHANNEL_NOT_FOUND".to_string(), format!("Kanal {} nicht gefunden", channel))
        );
    }
    let state = mixer.get_state();
    for (i, ch) in state.channels.iter().enumerate() {
        assert_eq!(num(ch.fader), 0.75);
        assert_eq!(num(ch.pan), 0.0);
        assert!(!ch.mute);
        assert_eq!(ch.solo, i == 1);
        assert_eq!(ch.name, format!("CH {}", i + 1));
    }
}

#[test]
fn a_frame_that_cannot_be_decoded_is_answered_to_the_sender() {
    match parse_error_delivery("expected value at line 1 column 1".to_string()) {
        Delivery::ToSender(ServerMessage::Error { code, message }) => {
            assert_eq!(code, "PARSE_ERROR");
            assert_eq!(message, "expected value at line 1 column 1");
        }
        _ => panic!("the error goes to the sender only"),
    }
}

#[test]
fn mute_goes_to_all_clients_and_count_follows_disconnect() {
    let mut mixer = Mixer::new(8, 2);
    let ctx = context();
    let mut clients = ClientCounter::new();
    assert_eq!(clients.connect(), 1);
    assert_eq!(clients.connect(), 2);
    assert_eq!(clients.connect(), 3);
    let msg = ClientMessage::SetMute { channel: 3, muted: true };
    let (reply, broadcast) = reply_of(handle_client_message(msg, &mut mixer, &ctx));
    match delivery(reply, broadcast) {
        Delivery::ToSenderAndAll(ServerMessage::ChannelUpdated(s)) => {
            assert_eq!(s.id, 3);
            assert!(s.mute);
        }
        _ => panic!("the update goes to all clients"),
    }
    // each session forwards what the hub hands it
    let forwarded = on_hub_event(HubEvent::Message(ServerMessage::ClientCountChanged { count: 9 }));
    assert!(matches!(forwarded, HubAction::Forward(ServerMessage::ClientCountChanged { count: 9 })));
    // client C leaves
    match clients.disconnect() {
        ServerMessage::ClientCountChanged { count } => assert_eq!(count, 2),
        _ => panic!("the count was expected"),
    }
    assert_eq!(clients.get(), 2);
}

#[test]
fn client_counter_does_not_wrap() {
    let mut c = ClientCounter::new();
    assert!(matches!(c.disconnect(), ServerMessage::ClientCountChanged { count: 0 }));
    assert_eq!(c.get(), 0);
}

#[test]
fn queries_stay_with_the_sender() {
    let mut mixer = Mixer::new(4, 3);
    let ctx = context();
    let (reply, broadcast) =
        reply_of(handle_client_message(ClientMessage::Ping { timestamp: 55 }, &mut mixer, &ctx));
    assert!(!broadcast);
    assert!(matches!(
        reply,
        Some(ServerMessage::Pong { timestamp: 55, server_time: 1700000000123 })
    ));
    let hello = ClientMessage::Hello(ClientInfo {
        name: "desk".to_string(),
        client_type: "app".to_string(),
        version: "1".to_string(),
        features: vec![],
    });
    let (reply, broadcast) = reply_of(handle_client_message(hello, &mut mixer, &ctx));
    assert!(reply.is_none() && !broadcast);
    let sub = ClientMessage::SubscribeMeters { enabled: true, interval_ms: Some(50) };
    let (reply, broadcast) = reply_of(handle_client_message(sub, &mut mixer, &ctx));
    assert!(reply.is_none() && !broadcast);
    let (reply, broadcast) =
        reply_of(handle_client_message(ClientMessage::GetServerInfo, &mut mixer, &ctx));
    assert!(!broadcast);
    match reply {
        Some(ServerMessage::ServerInfo(info)) => {
            assert_eq!(info.name, "AudioMultiverse");
            assert_eq!(info.version, "1.2.3");
            assert_eq!(info.input_count, 4);
            assert_eq!(info.output_count, 3);
            assert_eq!(info.sample_rate, 48000);
            assert_eq!(info.client_count, 2);
            assert_eq!(info.audio_backend, "aes67");
        }
        _ => panic!("the server info was expected"),
    }
    let (reply, broadcast) =
        reply_of(handle_client_message(ClientMessage::GetAes67Status, &mut mixer, &ctx));
    assert!(!broadcast);
    match reply {
        Some(ServerMessage::Aes67Status(s)) => {
            assert!(!s.enabled && !s.ptp_synchronized);
            assert_eq!(s.ptp_offset_ns, 0);
            assert!(s.our_stream.is_none() && s.subscribed_streams.is_empty());
        }
        _ => panic!("the status was expected"),
    }
}

#[test]
fn changes_go_to_all_clients() {
    let mut mixer = Mixer::new(4, 3);
    let ctx = context();
    let cases = vec![
        ClientMessage::SetSolo { channel: 1, solo: true },
        ClientMessage::SetPan { channel: 1, value: bits(-5.0) },
        ClientMessage::SetGain { channel: 1, value: bits(6.0) },
        ClientMessage::SetChannelName { channel: 1, name: "Vox".to_string() },
    ];
    for msg in cases {
        let (reply, broadcast) = reply_of(handle_client_message(msg, &mut mixer, &ctx));
        assert!(broadcast);
        assert!(matches!(reply, Some(ServerMessage::ChannelUpdated(_))));
    }
    let s = mixer.get_channel(1).unwrap();
    assert!(s.solo);
    assert_eq!(num(s.pan), -1.0);
    // the trim is reported, not set
    assert_eq!(num(s.gain), 0.0);
    assert_eq!(s.name, "Vox");
}

#[test]
fn routing_command() {
    let mut mixer = Mixer::new(4, 3);
    let ctx = context();
    let msg = ClientMessage::SetRouting { input: 3, output: 2, gain: bits(4.0) };
    let (reply, broadcast) = reply_of(handle_client_message(msg, &mut mixer, &ctx));
    assert!(broadcast);
    match reply {
        Some(ServerMessage::RoutingUpdated { input, output, gain }) => {
            assert_eq!((input, output, num(gain)), (3, 2, 4.0));
        }
        _ => panic!("the routing update was expected"),
    }
    assert_eq!(num(mixer.get_routing()[3][2]), 1.0);
    let msg = ClientMessage::SetRouting { input: 4, output: 12, gain: bits(0.5) };
    let (reply, broadcast) = reply_of(handle_client_message(msg, &mut mixer, &ctx));
    assert!(!broadcast);
    assert_eq!(
        error_code(&reply),
        ("INVALID_ROUTING".to_string(), "Ung\u{fc}ltiges Routing: 4x12".to_string())
    );
}

#[test]
fn commands_that_are_not_carried_out() {
    let mut mixer = Mixer::new(4, 3);
    let ctx = context();
    let cases = vec![
        ClientMessage::SetChannelColor { channel: 0, color: "#fff".to_string() },
        ClientMessage::SaveScene { name: "a".to_string(), description: None },
        ClientMessage::RecallScene { id: 1 },
        ClientMessage::DeleteScene { id: 1 },
        ClientMessage::GetScenes,
    ];
    for msg in cases {
        let (reply, broadcast) = reply_of(handle_client_message(msg, &mut mixer, &ctx));
        assert!(!broadcast);
        assert_eq!(
            error_code(&reply),
            (
                "NOT_IMPLEMENTED".to_string(),
                "Diese Funktion ist noch nicht implementiert".to_string()
            )
        );
    }
    assert_eq!(mixer.get_channel(0).unwrap().color, "#3B82F6");
}

fn discovered() -> Aes67Stream {
    Aes67Stream {
        name: b"Stage Box".to_vec(),
        session_id: b"X_1".to_vec(),
        origin: b"192.168.1.50".to_vec(),
        multicast_addr: Ipv4Addr::new(239, 69, 1, 7),
        port: 5004,
        channels: 8,
        sample_rate: 48000,
        bits_per_sample: 24,
        ptime_us: 1000,
        direction: StreamDirection::Send,
        sdp: Vec::new(),
    }
}

#[test]
fn aes67_queries() {
    let mut mixer = Mixer::new(2, 2);
    let mut ctx = context();
    ctx.ptp = Some(PtpStatus { synchronized: true, offset_ns: -42 });
    let mut receive = discovered();
    receive.direction = StreamDirection::Receive;
    receive.session_id = b"Y".to_vec();
    let mut both = discovered();
    both.direction = StreamDirection::SendReceive;
    both.session_id = b"Z".to_vec();
    ctx.streams = Some(vec![discovered(), receive, both]);
    let (reply, broadcast) =
        reply_of(handle_client_message(ClientMessage::GetAes67Status, &mut mixer, &ctx));
    assert!(!broadcast);
    match reply {
        Some(ServerMessage::Aes67Status(s)) => {
            assert!(s.enabled && s.ptp_synchronized);
            assert_eq!(s.ptp_offset_ns, -42);
        }
        _ => panic!("the status was expected"),
    }
    for (msg, to_all) in [(ClientMessage::GetAes67Streams, false), (ClientMessage::RefreshAes67, true)] {
        let (reply, broadcast) = reply_of(handle_client_message(msg, &mut mixer, &ctx));
        assert_eq!(broadcast, to_all);
        match reply {
            Some(ServerMessage::Aes67Streams(list)) => {
                assert_eq!(list.len(), 3);
                assert_eq!(list[0].id, "X_1");
                assert_eq!(list[0].name, "Stage Box");
                assert_eq!(list[0].channels, 8);
                assert_eq!(list[0].sample_rate, 48000);
                assert_eq!(list[0].multicast_addr, "239.69.1.7");
                assert_eq!(list[0].port, 5004);
                assert_eq!(list[0].direction, "Send");
                assert_eq!(list[0].origin, "192.168.1.50");
                assert_eq!(list[1].direction, "Receive");
                assert_eq!(list[2].direction, "SendReceive");
            }
            _ => panic!("the streams were expected"),
        }
    }
    ctx.streams = None;
    let (reply, _) = reply_of(handle_client_message(ClientMessage::GetAes67Streams, &mut mixer, &ctx));
    assert!(matches!(reply, Some(ServerMessage::Aes67Streams(list)) if list.is_empty()));
}

#[test]
fn subscriptions_go_through_the_engine() {
    let mut mixer = Mixer::new(2, 2);
    let mut ctx = context();
    let subscribe =
        || ClientMessage::SubscribeAes67Stream { stream_id: "X_1".to_string(), start_channel: Some(4) };
    let unsubscribe = || ClientMessage::UnsubscribeAes67Stream { stream_id: "X_1".to_string() };
    for msg in [subscribe(), unsubscribe()] {
        let (reply, broadcast) = reply_of(handle_client_message(msg, &mut mixer, &ctx));
        assert!(!broadcast);
        assert_eq!(
            error_code(&reply),
            ("NO_ENGINE".to_string(), "AudioEngine not available".to_string())
        );
    }
    ctx.engine_available = true;
    match handle_client_message(subscribe(), &mut mixer, &ctx) {
        Dispatch::Subscribe { stream_id, start_channel } => {
            assert_eq!(stream_id, "X_1");
            assert_eq!(start_channel, Some(4));
        }
        _ => panic!("the engine was to be asked"),
    }
    match handle_client_message(unsubscribe(), &mut mixer, &ctx) {
        Dispatch::Unsubscribe { stream_id } => assert_eq!(stream_id, "X_1"),
        _ => panic!("the engine was to be asked"),
    }
    let ok = Aes67SubscribeResult {
        stream_id: "X_1".to_string(),
        stream_name: "Stage Box".to_string(),
        channels: 8,
        start_channel: 4,
    };
    let (reply, broadcast) = subscription_reply(Ok(ok));
    assert!(broadcast);
    match reply {
        Some(ServerMessage::Aes67Subscribed { stream_id, stream_name, channels, start_channel }) => {
            assert_eq!((stream_id.as_str(), stream_name.as_str(), channels, start_channel), ("X_1", "Stage Box", 8, 4));
        }
        _ => panic!("the subscription was expected"),
    }
    let (reply, broadcast) = subscription_reply(Err("Stream 'Q' not found".to_string()));
    assert!(!broadcast);
    assert_eq!(error_code(&reply), ("SUBSCRIBE_FAILED".to_string(), "Stream 'Q' not found".to_string()));
    let (reply, broadcast) = unsubscription_reply("X_1".to_string(), Ok(()));
    assert!(broadcast);
    assert!(matches!(reply, Some(ServerMessage::Aes67Unsubscribed { stream_id }) if stream_id == "X_1"));
    let (reply, broadcast) = unsubscription_reply("X_1".to_string(), Err("busy".to_string()));
    assert!(!broadcast);
    assert_eq!(error_code(&reply), ("UNSUBSCRIBE_FAILED".to_string(), "busy".to_string()));
}

#[test]
fn session_messages() {
    let mut mixer = Mixer::new(3, 2);
    mixer.update_meter(1, bits(0.5), bits(0.0));
    let ctx = context();
    match welcome_message(&mixer, &ctx) {
        ServerMessage::Welcome { server_info, state } => {
            assert_eq!(server_info.client_count, 2);
            assert_eq!(server_info.input_count, 3);
            assert_eq!(state.channels.len(), 3);
            assert_eq!(state.output_count, 2);
        }
        _ => panic!("the welcome was expected"),
    }
    match meter_message(&mixer, 99) {
        ServerMessage::Meters(data) => {
            assert_eq!(data.timestamp, 99);
            assert_eq!(data.peaks, vec![0, bits(0.5), 0]);
        }
        _ => panic!("the meters were expected"),
    }
    assert_eq!(
        error_code(&Some(parse_error_message("expected value at line 1".to_string()))),
        ("PARSE_ERROR".to_string(), "expected value at line 1".to_string())
    );
    assert_eq!(
        error_code(&Some(error_message("CODE", "text".to_string()))),
        ("CODE".to_string(), "text".to_string())
    );
}

#[test]
fn frames_and_hub_events() {
    assert!(matches!(on_frame(Frame::Text("{}".to_string())), FrameAction::Decode(t) if t == "{}"));
    assert!(matches!(on_frame(Frame::Ping(vec![1, 2])), FrameAction::Pong(p) if p == vec![1, 2]));
    assert!(matches!(on_frame(Frame::Close), FrameAction::Stop));
    assert!(matches!(on_frame(Frame::Failed), FrameAction::Stop));
    assert!(matches!(on_frame(Frame::Binary(vec![1])), FrameAction::Skip));
    assert!(matches!(on_frame(Frame::Pong(vec![])), FrameAction::Skip));
    assert!(matches!(on_hub_event(HubEvent::Lagged(7)), HubAction::Continue { missed: 7 }));
    assert!(matches!(on_hub_event(HubEvent::Closed), HubAction::Stop));
    let m = ServerMessage::Pong { timestamp: 1, server_time: 2 };
    assert!(matches!(delivery(Some(m), false), Delivery::ToSender(ServerMessage::Pong { .. })));
    assert!(matches!(delivery(None, true), Delivery::Nothing));
}

#[test]
fn api_envelope() {
    let ok = ApiResponse::ok(5u32);
    assert!(ok.success);
    assert_eq!(ok.data, Some(5));
    assert!(ok.error.is_none());
    let err: ApiResponse<u32> = ApiResponse::err("Kanal 9999 nicht gefunden".to_string());
    assert!(!err.success);
    assert!(err.data.is_none());
    assert_eq!(err.error.as_deref(), Some("Kanal 9999 nicht gefunden"));
}
