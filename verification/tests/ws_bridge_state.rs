use dualterm::pty::PtyEngine;
use dualterm::ws::{
    chunk_from_read, listen_addr, take_pty_ends, Bridge, BridgeAction, BridgeEvent,
    DEFAULT_ADDR, QUEUE_DEPTH, READ_CHUNK, WS_PATH,
};

fn sent(action: &BridgeAction) -> Option<Vec<u8>> {
    match action {
        BridgeAction::SendToClient(bytes) => Some(bytes.clone()),
        _ => None,
    }
}

fn written(action: &BridgeAction) -> Option<Vec<u8>> {
    match action {
        BridgeAction::WriteToPty(bytes) => Some(bytes.clone()),
        _ => None,
    }
}

#[test]
fn constants_match_the_server() {
    assert_eq!(WS_PATH, "/ws");
    assert_eq!(READ_CHUNK, 8192);
    assert_eq!(QUEUE_DEPTH, 32);
    assert_eq!(DEFAULT_ADDR, "127.0.0.1:7681");
}

#[test]
fn listen_addr_prefers_the_configured_one() {
    assert_eq!(listen_addr(None), "127.0.0.1:7681");
    assert_eq!(listen_addr(Some("0.0.0.0:9000".to_string())), "0.0.0.0:9000");
}

#[test]
fn client_bytes_go_to_the_pty_unchanged() {
    let mut bridge = Bridge::new();
    let action = bridge.handle(BridgeEvent::ClientBinary(b"hello-ws\n".to_vec()));
    assert_eq!(written(&action), Some(b"hello-ws\n".to_vec()));
    assert!(bridge.is_open());
}

#[test]
fn text_frames_are_forwarded_as_raw_bytes_by_the_bridge() {
    let mut bridge = Bridge::new();
    let action = bridge.handle(BridgeEvent::ClientText("text-marker\n".to_string()));
    assert_eq!(written(&action), Some(b"text-marker\n".to_vec()));
    let action = bridge.handle(BridgeEvent::ClientText("é".to_string()));
    assert_eq!(written(&action), Some(vec![0xc3, 0xa9]));
}

#[test]
fn pty_output_goes_to_the_client_unchanged() {
    let mut bridge = Bridge::new();
    let action = bridge.handle(BridgeEvent::PtyOutput(b"dualterm-ws-ok\r\n".to_vec()));
    assert_eq!(sent(&action), Some(b"dualterm-ws-ok\r\n".to_vec()));
    assert!(bridge.is_open());
}

#[test]
fn control_frames_are_ignored() {
    let mut bridge = Bridge::new();
    for event in [
        BridgeEvent::ClientPing,
        BridgeEvent::ClientPong,
        BridgeEvent::ClientClose,
    ] {
        assert!(matches!(bridge.handle(event), BridgeAction::Ignore));
        assert!(bridge.is_open());
    }
}

#[test]
fn every_ending_event_shuts_down_once() {
    let endings = || {
        vec![
            BridgeEvent::PtyClosed,
            BridgeEvent::ClientGone,
            BridgeEvent::ClientSendFailed,
            BridgeEvent::PtySendFailed,
        ]
    };
    for first in endings() {
        let mut bridge = Bridge::new();
        assert!(matches!(bridge.handle(first), BridgeAction::Shutdown));
        assert!(!bridge.is_open());
        for later in endings() {
            assert!(matches!(bridge.handle(later), BridgeAction::Ignore));
        }
        assert!(matches!(
            bridge.handle(BridgeEvent::PtyOutput(b"late".to_vec())),
            BridgeAction::Ignore
        ));
        assert!(matches!(
            bridge.handle(BridgeEvent::ClientBinary(b"late".to_vec())),
            BridgeAction::Ignore
        ));
        assert!(!bridge.is_open());
    }
}

#[test]
fn a_session_relays_in_order_until_it_ends() {
    let mut bridge = Bridge::new();
    let events = vec![
        BridgeEvent::PtyOutput(b"$ ".to_vec()),
        BridgeEvent::ClientBinary(b"ec".to_vec()),
        BridgeEvent::ClientPing,
        BridgeEvent::ClientText("ho hi\n".to_string()),
        BridgeEvent::PtyOutput(b"hi\r\n".to_vec()),
        BridgeEvent::ClientGone,
        BridgeEvent::PtyOutput(b"lost".to_vec()),
        BridgeEvent::ClientBinary(b"lost".to_vec()),
    ];
    let mut to_client = Vec::new();
    let mut to_pty = Vec::new();
    let mut shutdowns = 0;
    for event in events {
        let action = bridge.handle(event);
        if let Some(bytes) = sent(&action) {
            to_client.extend(bytes);
        }
        if let Some(bytes) = written(&action) {
            to_pty.extend(bytes);
        }
        if matches!(action, BridgeAction::Shutdown) {
            shutdowns += 1;
        }
    }
    assert_eq!(to_client, b"$ hi\r\n".to_vec());
    assert_eq!(to_pty, b"echo hi\n".to_vec());
    assert_eq!(shutdowns, 1);
}

#[test]
fn a_fresh_engine_gives_both_ends_to_a_session() {
    let mut engine = PtyEngine::new(0u8, 0u8, "reader", "writer");
    assert_eq!(take_pty_ends(&mut engine), Some(("reader", "writer")));
    assert!(engine.take_reader().is_err());
    assert!(engine.take_writer().is_err());
}

#[test]
fn a_session_needs_both_ends() {
    let mut engine = PtyEngine::new(0u8, 0u8, "reader", "writer");
    let _ = engine.take_reader();
    assert_eq!(take_pty_ends(&mut engine), None);
    assert!(engine.take_writer().is_err());

    let mut engine = PtyEngine::new(0u8, 0u8, "reader", "writer");
    let _ = engine.take_writer();
    assert_eq!(take_pty_ends(&mut engine), None);
    assert!(engine.take_reader().is_err());
}

#[test]
fn a_read_hands_on_exactly_the_bytes_read() {
    let buf = [b'a', b'b', b'c', 0, 0];
    assert_eq!(chunk_from_read(&buf, Some(3)), Some(b"abc".to_vec()));
    assert_eq!(chunk_from_read(&buf, Some(5)), Some(vec![b'a', b'b', b'c', 0, 0]));
}

#[test]
fn end_of_output_or_a_failed_read_stops_the_pump() {
    let buf = [1u8; 4];
    assert_eq!(chunk_from_read(&buf, Some(0)), None);
    assert_eq!(chunk_from_read(&buf, None), None);
}
