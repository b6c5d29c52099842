use blive::codec::encode;
use blive::event::{Event, EventQueue};
use blive::heartbeat::HEARTBEAT_PERIOD_MS;
use blive::session::ConnectionState;
use blive::supervisor::{Supervisor, SupervisorError};
use std::io::Write;

/// Compresses bytes into one zlib stream, as the server batches frames.
fn zlib_compress(data: &[u8]) -> Vec<u8> {
    let mut encoder =
        flate2::write::ZlibEncoder::new(Vec::new(), flate2::Compression::default());
    encoder.write_all(data).unwrap();
    encoder.finish().unwrap()
}

/// Builds one compressed frame around an already zlib-compressed body.
fn compressed_frame(z: &[u8]) -> Vec<u8> {
    let mut out = Vec::new();
    out.extend_from_slice(&(16 + z.len() as u32).to_be_bytes());
    out.extend_from_slice(&16u16.to_be_bytes());
    out.extend_from_slice(&2u16.to_be_bytes());
    out.extend_from_slice(&5u32.to_be_bytes());
    out.extend_from_slice(&1u32.to_be_bytes());
    out.extend_from_slice(z);
    out
}

/// Drives a fresh supervisor to an open session and drains the
/// `Connected` event.
fn open_session(auth: &[u8]) -> Supervisor {
    let mut sup = Supervisor::new();
    sup.start("wss://example.invalid/sub", auth.to_vec()).unwrap();
    let auth_frame = sup.on_opened().unwrap();
    assert_eq!(auth_frame, encode(7, auth));
    sup.on_auth_sent(1000);
    assert_eq!(sup.poll_next_event(), Some(Event::Connected));
    sup
}

#[test]
fn end_to_end_scenario_delivers_events_in_order() {
    let auth = br#"{"roomid":1}"#;
    let mut sup = Supervisor::new();
    assert!(sup.start("wss://example.invalid/sub", auth.to_vec()).is_ok());
    let auth_frame = sup.on_opened().expect("the auth frame is owed on open");
    assert_eq!(auth_frame, encode(7, auth));
    sup.on_auth_sent(0);

    let mut batch = encode(8, b"");
    let mut inner = Vec::new();
    inner.extend_from_slice(&encode(5, br#"{"cmd":"X","data":1}"#));
    inner.extend_from_slice(&encode(5, br#"{"cmd":"Y","data":2}"#));
    batch.extend_from_slice(&compressed_frame(&zlib_compress(&inner)));
    sup.on_data(&batch);

    assert_eq!(sup.poll_next_event(), Some(Event::Connected));
    assert_eq!(
        sup.poll_next_event(),
        Some(Event::Trace { message: "authentication acknowledged".to_string() })
    );
    assert_eq!(
        sup.poll_next_event(),
        Some(Event::Inbound {
            command: "X".to_string(),
            payload: r#"{"cmd":"X","data":1}"#.to_string(),
        })
    );
    assert_eq!(
        sup.poll_next_event(),
        Some(Event::Inbound {
            command: "Y".to_string(),
            payload: r#"{"cmd":"Y","data":2}"#.to_string(),
        })
    );
    assert_eq!(sup.poll_next_event(), None);
}

#[test]
fn second_start_without_closed_is_refused() {
    let mut sup = Supervisor::new();
    assert!(sup.start("wss://a.invalid", b"auth".to_vec()).is_ok());
    assert_eq!(
        sup.start("wss://b.invalid", b"other".to_vec()),
        Err(SupervisorError::AlreadyRunning)
    );
    // A stop request alone does not free the slot: the session is only
    // over once the transport wound down.
    sup.stop();
    sup.on_opened();
    assert_eq!(
        sup.start("wss://b.invalid", b"other".to_vec()),
        Err(SupervisorError::AlreadyRunning)
    );
}

#[test]
fn start_is_allowed_again_after_closed() {
    let mut sup = Supervisor::new();
    sup.start("wss://a.invalid", b"auth".to_vec()).unwrap();
    sup.on_opened();
    sup.on_auth_sent(0);
    sup.stop();
    sup.on_transport_closed();
    assert_eq!(sup.session.state, ConnectionState::Closed);
    assert!(sup.start("wss://b.invalid", b"fresh".to_vec()).is_ok());
}

#[test]
fn heartbeat_cadence_is_one_frame_per_period() {
    let mut sup = open_session(b"auth");
    // Advancing by zero periods sends zero frames.
    assert_eq!(sup.heartbeat_tick(1000), None);
    assert_eq!(sup.heartbeat_tick(1000 + HEARTBEAT_PERIOD_MS - 1), None);
    // Advancing by exactly one period sends exactly one frame.
    let frame = sup.heartbeat_tick(1000 + HEARTBEAT_PERIOD_MS);
    assert_eq!(frame, Some(encode(2, b"")));
    assert_eq!(sup.heartbeat_tick(1000 + HEARTBEAT_PERIOD_MS), None);
    // The next one falls due one period later.
    assert_eq!(sup.heartbeat_tick(1000 + 2 * HEARTBEAT_PERIOD_MS - 1), None);
    assert_eq!(
        sup.heartbeat_tick(1000 + 2 * HEARTBEAT_PERIOD_MS),
        Some(encode(2, b""))
    );
}

#[test]
fn heartbeat_stands_down_once_stopped() {
    let mut sup = open_session(b"auth");
    sup.stop();
    assert_eq!(sup.heartbeat_tick(1000 + HEARTBEAT_PERIOD_MS), None);
    assert_eq!(sup.heartbeat_tick(1000 + 2 * HEARTBEAT_PERIOD_MS), None);
}

#[test]
fn heartbeat_send_failure_is_surfaced_and_task_exits() {
    let mut sup = open_session(b"auth");
    sup.on_heartbeat_send_failed();
    assert_eq!(
        sup.poll_next_event(),
        Some(Event::Failure { message: "heartbeat frame could not be sent".to_string() })
    );
    // The task is gone, but the session itself is still open.
    assert_eq!(sup.session.state, ConnectionState::Open);
    assert_eq!(sup.heartbeat_tick(1000 + HEARTBEAT_PERIOD_MS), None);
}

#[test]
fn auth_reply_while_open_is_a_noop_acknowledgment() {
    let mut sup = open_session(b"auth");
    sup.on_data(&encode(8, b"ignored"));
    assert_eq!(
        sup.poll_next_event(),
        Some(Event::Trace { message: "authentication acknowledged".to_string() })
    );
    assert_eq!(sup.session.state, ConnectionState::Open);
}

#[test]
fn heartbeat_reply_is_traced() {
    let mut sup = open_session(b"auth");
    sup.on_data(&encode(3, b""));
    assert_eq!(
        sup.poll_next_event(),
        Some(Event::Trace { message: "heartbeat acknowledged".to_string() })
    );
}

#[test]
fn unknown_operations_are_traced_not_rejected() {
    let mut sup = open_session(b"auth");
    sup.on_data(&encode(4242, b"whatever"));
    assert_eq!(
        sup.poll_next_event(),
        Some(Event::Trace { message: "unrecognized operation".to_string() })
    );
    assert_eq!(sup.session.state, ConnectionState::Open);
}

#[test]
fn message_with_invalid_utf8_is_dropped_with_a_trace() {
    let mut sup = open_session(b"auth");
    sup.on_data(&encode(5, &[0xff, 0xfe, 0x01]));
    assert_eq!(
        sup.poll_next_event(),
        Some(Event::Trace { message: "message body is not valid utf-8".to_string() })
    );
    assert_eq!(sup.session.state, ConnectionState::Open);
}

#[test]
fn message_that_is_not_a_record_is_dropped_with_a_trace() {
    let mut sup = open_session(b"auth");
    sup.on_data(&encode(5, b"plain text"));
    assert_eq!(
        sup.poll_next_event(),
        Some(Event::Trace { message: "message body is not a structured record".to_string() })
    );
}

#[test]
fn record_without_command_tag_is_surfaced_as_unknown() {
    let mut sup = open_session(b"auth");
    sup.on_data(&encode(5, br#"{"data":1}"#));
    assert_eq!(
        sup.poll_next_event(),
        Some(Event::Inbound {
            command: "UNKNOWN".to_string(),
            payload: r#"{"data":1}"#.to_string(),
        })
    );
}

#[test]
fn malformed_stream_closes_the_session_with_a_failure() {
    let mut sup = open_session(b"auth");
    let frame = encode(5, b"hello");
    sup.on_data(&frame[..frame.len() - 2]);
    assert_eq!(
        sup.poll_next_event(),
        Some(Event::Failure { message: "malformed frame stream".to_string() })
    );
    assert_eq!(sup.session.state, ConnectionState::Closed);
    assert!(!sup.is_running());
    // Later bytes are dropped.
    sup.on_data(&encode(5, br#"{"cmd":"Z"}"#));
    assert_eq!(sup.poll_next_event(), None);
}

#[test]
fn peer_close_emits_disconnected() {
    let mut sup = open_session(b"auth");
    sup.on_transport_closed();
    assert_eq!(sup.poll_next_event(), Some(Event::Disconnected));
    assert_eq!(sup.session.state, ConnectionState::Closed);
    assert!(!sup.is_running());
}

#[test]
fn transport_error_skips_the_orderly_close() {
    let mut sup = open_session(b"auth");
    sup.on_transport_error();
    assert_eq!(
        sup.poll_next_event(),
        Some(Event::Failure { message: "transport failed".to_string() })
    );
    assert_eq!(sup.session.state, ConnectionState::Closed);
}

#[test]
fn failed_connect_closes_the_session() {
    let mut sup = Supervisor::new();
    sup.start("wss://a.invalid", b"auth".to_vec()).unwrap();
    sup.on_open_failed();
    assert_eq!(
        sup.poll_next_event(),
        Some(Event::Failure { message: "transport could not be opened".to_string() })
    );
    assert_eq!(sup.session.state, ConnectionState::Closed);
    assert!(sup.start("wss://b.invalid", b"auth".to_vec()).is_ok());
}

#[test]
fn failed_auth_send_closes_the_session() {
    let mut sup = Supervisor::new();
    sup.start("wss://a.invalid", b"auth".to_vec()).unwrap();
    sup.on_opened();
    sup.on_auth_send_failed();
    assert_eq!(sup.poll_next_event(), Some(Event::Connected));
    assert_eq!(
        sup.poll_next_event(),
        Some(Event::Failure { message: "authentication frame could not be sent".to_string() })
    );
    assert_eq!(sup.session.state, ConnectionState::Closed);
}

#[test]
fn stop_moves_an_open_session_to_closing() {
    let mut sup = open_session(b"auth");
    sup.stop();
    assert_eq!(sup.session.state, ConnectionState::Closing);
    assert!(!sup.is_running());
    // Data arriving while closing is dropped.
    sup.on_data(&encode(5, br#"{"cmd":"Z"}"#));
    assert_eq!(sup.poll_next_event(), None);
}

#[test]
fn event_queue_is_fifo_and_lossless() {
    let mut q = EventQueue::new();
    assert_eq!(q.poll(), None);
    q.push(Event::Connected);
    q.push(Event::Trace { message: "one".to_string() });
    q.push(Event::Trace { message: "two".to_string() });
    assert_eq!(q.len(), 3);
    assert_eq!(q.poll(), Some(Event::Connected));
    q.push(Event::Disconnected);
    assert_eq!(q.poll(), Some(Event::Trace { message: "one".to_string() }));
    assert_eq!(q.poll(), Some(Event::Trace { message: "two".to_string() }));
    assert_eq!(q.poll(), Some(Event::Disconnected));
    assert_eq!(q.poll(), None);
}
