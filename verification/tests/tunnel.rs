use kohakuriver_tunnel::protocol::{build_message, MsgType, Proto, ProtocolError};
use kohakuriver_tunnel::tunnel::{
    classify_frame, session_step, Dispatch, SessionStep, TransportEvent, TunnelClient,
    TunnelConfig, TunnelError,
};

fn config(url: &str, container: &str, max_attempts: u32) -> TunnelConfig {
    TunnelConfig {
        runner_url: String::from(url),
        container_id: String::from(container),
        reconnect_delay_secs: 0,
        max_reconnect_attempts: max_attempts,
    }
}

#[test]
fn default_config_matches_documented_values() {
    let c = TunnelConfig::default();
    assert_eq!(c.runner_url, "");
    assert_eq!(c.container_id, "");
    assert_eq!(c.reconnect_delay_secs, 5);
    assert_eq!(c.max_reconnect_attempts, 0);
}

#[test]
fn ws_url_is_base_plus_fixed_path_plus_container() {
    let client = TunnelClient::new(config("ws://192.168.1.100:8001", "my-container", 0));
    let url = client.build_ws_url().unwrap();
    assert_eq!(url.as_str(), "ws://192.168.1.100:8001/ws/tunnel/my-container");
}

#[test]
fn ws_url_trims_trailing_slashes() {
    let client = TunnelClient::new(config("ws://example.net:8001///", "box", 0));
    let url = client.build_ws_url().unwrap();
    assert_eq!(url.as_str(), "ws://example.net:8001/ws/tunnel/box");
}

#[test]
fn ws_url_rejects_an_invalid_base() {
    let client = TunnelClient::new(config("", "box", 0));
    assert_eq!(client.build_ws_url(), Err(TunnelError::InvalidUrl));
}

#[test]
fn capped_reconnect_makes_exactly_three_attempts() {
    let mut client = TunnelClient::new(config("ws://h", "c", 3));
    // Every session fails, so the counter is never reset.
    assert!(client.begin_attempt());
    assert!(client.begin_attempt());
    assert!(client.begin_attempt());
    assert!(!client.begin_attempt());
    // Refusal is stable.
    assert!(!client.begin_attempt());
}

#[test]
fn unlimited_reconnect_continues_past_attempt_five() {
    let mut client = TunnelClient::new(config("ws://h", "c", 0));
    for _ in 0..32 {
        assert!(client.begin_attempt());
    }
}

#[test]
fn clean_session_resets_the_attempt_counter() {
    let mut client = TunnelClient::new(config("ws://h", "c", 2));
    assert!(client.begin_attempt());
    assert!(client.begin_attempt());
    assert!(!client.begin_attempt());
    client.record_success();
    assert!(client.begin_attempt());
    assert!(client.begin_attempt());
    assert!(!client.begin_attempt());
}

#[test]
fn classify_maps_each_inbound_type() {
    let connect = build_message(MsgType::Connect, Proto::Tcp, 7, 9000, &[]);
    assert_eq!(
        classify_frame(&connect),
        Dispatch::Connect { client_id: 7, proto: Proto::Tcp, port: 9000 }
    );

    let data = build_message(MsgType::Data, Proto::Udp, 7, 0, b"payload");
    assert_eq!(
        classify_frame(&data),
        Dispatch::Data { client_id: 7, proto: Proto::Udp }
    );

    let close = build_message(MsgType::Close, Proto::Tcp, 7, 0, &[]);
    assert_eq!(classify_frame(&close), Dispatch::Close { client_id: 7 });

    let ping = build_message(MsgType::Ping, Proto::Tcp, 99, 0, &[]);
    assert_eq!(classify_frame(&ping), Dispatch::Ping { client_id: 99 });
}

#[test]
fn classify_flags_client_originated_types_as_unexpected() {
    for msg_type in [MsgType::Connected, MsgType::Error, MsgType::Pong] {
        let frame = build_message(msg_type, Proto::Tcp, 1, 0, &[]);
        assert_eq!(classify_frame(&frame), Dispatch::Unexpected { msg_type });
    }
}

#[test]
fn classify_flags_undecodable_frames_as_malformed() {
    assert_eq!(
        classify_frame(&[0x01, 0x00, 0x00]),
        Dispatch::Malformed { error: ProtocolError::MessageTooShort(3) }
    );
    assert_eq!(
        classify_frame(&[0xaa, 0x00, 0, 0, 0, 1, 0, 0]),
        Dispatch::Malformed { error: ProtocolError::InvalidMsgType(0xaa) }
    );
}

#[test]
fn session_step_dispatches_binary_frames() {
    let frame = build_message(MsgType::Connect, Proto::Tcp, 7, 9000, &[]);
    match session_step(TransportEvent::Binary { data: frame.clone() }) {
        SessionStep::HandleFrame { dispatch, data } => {
            assert_eq!(
                dispatch,
                Dispatch::Connect { client_id: 7, proto: Proto::Tcp, port: 9000 }
            );
            assert_eq!(data, frame);
        }
        _ => panic!("expected HandleFrame"),
    }
}

#[test]
fn session_step_echoes_transport_pings() {
    match session_step(TransportEvent::Ping { data: b"ka".to_vec() }) {
        SessionStep::ReplyPong { data } => assert_eq!(data, b"ka".to_vec()),
        _ => panic!("expected ReplyPong"),
    }
}

#[test]
fn session_step_ends_on_close_or_failure_and_skips_the_rest() {
    assert!(matches!(session_step(TransportEvent::Closed), SessionStep::End));
    assert!(matches!(session_step(TransportEvent::Failed), SessionStep::End));
    assert!(matches!(session_step(TransportEvent::Text), SessionStep::Continue));
    assert!(matches!(session_step(TransportEvent::Pong), SessionStep::Continue));
    assert!(matches!(session_step(TransportEvent::Raw), SessionStep::Continue));
}
