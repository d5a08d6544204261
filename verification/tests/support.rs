use crazyradio_server::connection::{status_after_error, status_report, ConnectionStatus};
use crazyradio_server::error::Error;
use crazyradio_server::ports::{BindStep, PortBinder, DYNAMIC_PORT_END, DYNAMIC_PORT_FIRST, MAX_BIND_ATTEMPTS};
use crazyradio_server::radio::{ack_buffer, ack_payload, ACK_BUFFER_LEN};
use crazyradio_server::relay::{after_pull, after_push, after_receive, RelayStep, SocketOutcome};
use crazyradio_server::text::{append_decimal, tcp_listen_uri};

#[test]
fn listen_uri_of_default_port() {
    assert_eq!(tcp_listen_uri(7777), "tcp://*:7777");
    assert_eq!(tcp_listen_uri(0), "tcp://*:0");
    assert_eq!(tcp_listen_uri(65535), "tcp://*:65535");
    assert_eq!(tcp_listen_uri(u32::MAX), "tcp://*:4294967295");
}

#[test]
fn decimal_appends() {
    let mut text = "port ".to_string();
    append_decimal(&mut text, 1000);
    assert_eq!(text, "port 1000");
}

#[test]
fn status_report_texts() {
    assert_eq!(status_report(&ConnectionStatus::Connected), (true, "Connected".to_string()));
    assert_eq!(
        status_report(&ConnectionStatus::Disconnected("gone".to_string())),
        (false, "Disconnected: gone".to_string())
    );
}

#[test]
fn status_after_relay_error() {
    let status = status_after_error(&Error::ServerError("ZMQ socket timeout".to_string()));
    assert_eq!(
        status,
        ConnectionStatus::Disconnected("Connection error: ServerError(\"ZMQ socket timeout\")".to_string())
    );
}

#[test]
fn binder_tries_random_ports_in_range() {
    let (mut binder, first) = PortBinder::start();
    let mut ports = Vec::new();
    let mut step = first;
    for _ in 0..MAX_BIND_ATTEMPTS {
        match step {
            BindStep::Try(port) => {
                assert!(DYNAMIC_PORT_FIRST <= port && port < DYNAMIC_PORT_END);
                ports.push(port);
                step = binder.after_attempt(false);
            }
            _ => panic!("expected a port to try"),
        }
    }
    assert_eq!(ports.len(), 10);
    assert!(ports.iter().any(|p| *p != ports[0]));
    match step {
        BindStep::Failed(error) => {
            assert_eq!(error, Error::ServerError("Cannot bind TCP port for connection".to_string()))
        }
        _ => panic!("expected the binder to give up"),
    }
}

#[test]
fn binder_stops_at_bound_port() {
    let (mut binder, first) = PortBinder::start();
    let port = match first {
        BindStep::Try(port) => port,
        _ => panic!("expected a port to try"),
    };
    match binder.after_attempt(true) {
        BindStep::Bound(bound) => assert_eq!(bound, port),
        _ => panic!("expected the port to be bound"),
    }
}

#[test]
fn downlink_keepalive_is_empty() {
    match after_receive(SocketOutcome::TimedOut) {
        RelayStep::Forward(frame) => assert_eq!(frame, Vec::<u8>::new()),
        _ => panic!("expected a keep-alive frame"),
    }
    match after_receive(SocketOutcome::Done(vec![0x30, 1, 2])) {
        RelayStep::Forward(frame) => assert_eq!(frame, vec![0x30, 1, 2]),
        _ => panic!("expected the packet to be pushed"),
    }
    match after_receive(SocketOutcome::Failed("Timeout".to_string())) {
        RelayStep::Stop { error, raise_stop } => {
            assert!(!raise_stop);
            assert_eq!(error, Error::LinkError("Timeout".to_string()));
        }
        _ => panic!("expected the loop to stop"),
    }
}

#[test]
fn push_timeout_stops_connection() {
    assert!(matches!(after_push(SocketOutcome::Done(())), RelayStep::Continue));
    match after_push(SocketOutcome::TimedOut) {
        RelayStep::Stop { error, raise_stop } => {
            assert!(raise_stop);
            assert_eq!(error, Error::ServerError("ZMQ socket timeout".to_string()));
        }
        _ => panic!("expected the loop to stop"),
    }
    match after_push(SocketOutcome::Failed("ETERM".to_string())) {
        RelayStep::Stop { error, raise_stop } => {
            assert!(!raise_stop);
            assert_eq!(error, Error::SocketError("ETERM".to_string()));
        }
        _ => panic!("expected the loop to stop"),
    }
}

#[test]
fn pull_outcomes() {
    match after_pull(SocketOutcome::Done(vec![9, 8])) {
        RelayStep::Forward(packet) => assert_eq!(packet, vec![9, 8]),
        _ => panic!("expected a forward"),
    }
    assert!(matches!(after_pull(SocketOutcome::TimedOut), RelayStep::Continue));
    assert!(matches!(after_pull(SocketOutcome::Failed("x".to_string())), RelayStep::Stop { raise_stop: false, .. }));
}

#[test]
fn ack_payload_resizes() {
    let buffer = ack_buffer();
    assert_eq!(buffer, vec![0u8; ACK_BUFFER_LEN]);
    let mut filled = buffer.clone();
    filled[0] = 0xaa;
    filled[1] = 0xbb;
    assert_eq!(ack_payload(filled.clone(), 2), vec![0xaa, 0xbb]);
    assert_eq!(ack_payload(filled.clone(), 0), Vec::<u8>::new());
    let longer = ack_payload(vec![1, 2], 4);
    assert_eq!(longer, vec![1, 2, 0, 0]);
}
