use asspp::wisp::{
    connect_accepted, connect_refused, handshake_packet, make_close_packet, make_connect_packet, make_continue_packet,
    make_data_packet, on_frame, parse_close, parse_connect, parse_continue, parse_packet, relay_chunk, relay_end,
    validate_wisp_target, CloseReason, SessionAction, WispPacketType,
};

#[test]
fn data_packet_layout_and_round_trip() {
    let p = make_data_packet(0x01020304, b"ping");
    assert_eq!(p, vec![0x02, 0x04, 0x03, 0x02, 0x01, b'p', b'i', b'n', b'g']);
    let (t, s, payload) = parse_packet(&p).unwrap();
    assert_eq!(t, WispPacketType::Data);
    assert_eq!(s, 0x01020304);
    assert_eq!(payload, b"ping".to_vec());
    let empty = make_data_packet(u32::MAX, b"");
    assert_eq!(parse_packet(&empty), Some((WispPacketType::Data, u32::MAX, vec![])));
}

#[test]
fn continue_and_close_round_trip() {
    let c = make_continue_packet(7, 128);
    assert_eq!(c, vec![0x03, 7, 0, 0, 0, 128, 0, 0, 0]);
    let (t, s, payload) = parse_packet(&c).unwrap();
    assert_eq!((t, s), (WispPacketType::Continue, 7));
    assert_eq!(parse_continue(&payload), Some(128));
    let x = make_close_packet(9, CloseReason::Forbidden);
    assert_eq!(x, vec![0x04, 9, 0, 0, 0, 0x43]);
    let (t, s, payload) = parse_packet(&x).unwrap();
    assert_eq!((t, s), (WispPacketType::Close, 9));
    assert_eq!(parse_close(&payload), Some(0x43));
    assert_eq!(CloseReason::Voluntary.code(), 0x02);
    assert_eq!(CloseReason::NetworkError.code(), 0x03);
    assert_eq!(CloseReason::InvalidData.code(), 0x41);
    assert_eq!(CloseReason::ServerRefused.code(), 0x44);
}

#[test]
fn connect_round_trip() {
    let p = make_connect_packet(1, 7, "echo.public");
    assert_eq!(&p[..8], &[0x01, 1, 0, 0, 0, 0x01, 7, 0]);
    let (t, s, payload) = parse_packet(&p).unwrap();
    assert_eq!((t, s), (WispPacketType::Connect, 1));
    let c = parse_connect(&payload).unwrap();
    assert_eq!(c.port, 7);
    assert_eq!(c.hostname, "echo.public");
    let u = make_connect_packet(2, 443, "bücher.example");
    let (_, _, payload) = parse_packet(&u).unwrap();
    assert_eq!(parse_connect(&payload).unwrap().hostname, "bücher.example");
}

#[test]
fn malformed_frames_are_rejected_softly() {
    assert_eq!(parse_packet(&[]), None);
    assert_eq!(parse_packet(&[0x02, 1, 0, 0]), None);
    assert_eq!(parse_packet(&[0x09, 1, 0, 0, 0]), None);
    assert!(parse_connect(&[0x02, 80, 0, b'a']).is_none());
    assert!(parse_connect(&[0x01, 80]).is_none());
    assert!(parse_connect(&[0x01, 80, 0, 0xff, 0xfe]).is_none());
    assert_eq!(parse_continue(&[1, 2, 3]), None);
    assert_eq!(parse_close(&[]), None);
}

#[test]
fn wisp_targets() {
    assert!(validate_wisp_target("echo.public", 7).is_ok());
    assert!(validate_wisp_target("93.184.216.34", 443).is_ok());
    assert!(validate_wisp_target("", 80).is_err());
    assert!(validate_wisp_target("localhost", 80).is_err());
    assert!(validate_wisp_target("printer.local", 80).is_err());
    assert!(validate_wisp_target("127.0.0.1", 80).is_err());
    assert!(validate_wisp_target("10.0.0.8", 80).is_err());
    assert!(validate_wisp_target("::1", 80).is_err());
    assert!(validate_wisp_target("2606:4700::1111", 80).is_ok());
    assert!(validate_wisp_target("example.com", 0).is_err());
}

#[test]
fn tunnel_echo_session() {
    assert_eq!(handshake_packet(), make_continue_packet(0, 128));
    let connect = make_connect_packet(1, 7, "echo.public");
    match on_frame(&connect) {
        SessionAction::Open { stream_id, target } => {
            assert_eq!(stream_id, 1);
            assert_eq!(target.port, 7);
            assert_eq!(target.hostname, "echo.public");
        }
        other => panic!("unexpected {:?}", other),
    }
    assert_eq!(connect_accepted(1), make_continue_packet(1, 128));
    match on_frame(&make_data_packet(1, b"ping")) {
        SessionAction::Forward { stream_id, data } => {
            assert_eq!(stream_id, 1);
            assert_eq!(data, b"ping".to_vec());
        }
        other => panic!("unexpected {:?}", other),
    }
    assert_eq!(relay_chunk(1, b"ping"), Some(make_data_packet(1, b"ping")));
    assert_eq!(relay_chunk(1, b""), None);
    match on_frame(&make_close_packet(1, CloseReason::Voluntary)) {
        SessionAction::CloseStream { stream_id } => assert_eq!(stream_id, 1),
        other => panic!("unexpected {:?}", other),
    }
    assert!(matches!(on_frame(&make_continue_packet(1, 64)), SessionAction::Ignore));
    assert!(matches!(on_frame(&[0x07, 0, 0, 0, 0]), SessionAction::Ignore));
}

#[test]
fn session_refusals() {
    match on_frame(&make_connect_packet(3, 80, "localhost")) {
        SessionAction::Reply(f) => assert_eq!(f, make_close_packet(3, CloseReason::Forbidden)),
        other => panic!("unexpected {:?}", other),
    }
    let bad = vec![0x01, 4, 0, 0, 0, 0x02, 80, 0];
    match on_frame(&bad) {
        SessionAction::Reply(f) => assert_eq!(f, make_close_packet(4, CloseReason::InvalidData)),
        other => panic!("unexpected {:?}", other),
    }
    assert_eq!(connect_refused(5), make_close_packet(5, CloseReason::ServerRefused));
    assert_eq!(relay_end(6, false), make_close_packet(6, CloseReason::Voluntary));
    assert_eq!(relay_end(6, true), make_close_packet(6, CloseReason::NetworkError));
}
