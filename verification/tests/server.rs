use crazyradio_server::connection::ConnectionStatus;
use crazyradio_server::error::Error;
use crazyradio_server::jsonrpc::{Methods, Results};
use crazyradio_server::server::{Event, OpenedLink, Pending, ServerCore, Step};

const URI: &str = "radio://0/80/2M/E7E7E7E7E7";

fn reply(step: Step<u32>) -> Result<Results, Error> {
    match step {
        Step::Reply(outcome) => outcome,
        _ => panic!("expected a reply"),
    }
}

fn opened(connection: u32, status: ConnectionStatus) -> Event<u32> {
    Event::Opened(Ok(OpenedLink { connection, status, pull_port: 50001, push_port: 50002 }))
}

fn connect_new(core: &mut ServerCore<u32>, connection: u32) -> Result<Results, Error> {
    match core.begin(Methods::Connect { uri: URI.to_string() }) {
        Step::Open { uri } => assert_eq!(uri, URI),
        _ => panic!("expected an open step"),
    }
    reply(core.resume(opened(connection, ConnectionStatus::Connected)))
}

#[test]
fn get_version_answers_at_once() {
    let mut core: ServerCore<u32> = ServerCore::new("0.3.1".to_string());
    let outcome = reply(core.begin(Methods::GetVersion));
    assert_eq!(outcome, Ok(Results::GetVersion("0.3.1".to_string())));
    assert!(core.is_idle());
}

#[test]
fn scan_passes_address_and_found_links() {
    let mut core: ServerCore<u32> = ServerCore::new("1".to_string());
    match core.begin(Methods::Scan { address: [1, 2, 3, 4, 5] }) {
        Step::Scan { address } => assert_eq!(address, [1, 2, 3, 4, 5]),
        _ => panic!("expected a scan step"),
    }
    assert!(!core.is_idle());
    let found = vec!["radio://0/80/2M".to_string()];
    let outcome = reply(core.resume(Event::Scanned(Ok(found.clone()))));
    assert_eq!(outcome, Ok(Results::Scan { found }));
    assert!(core.is_idle());
}

#[test]
fn scan_failure_is_reported() {
    let mut core: ServerCore<u32> = ServerCore::new("1".to_string());
    let _ = core.begin(Methods::Scan { address: [0xe7; 5] });
    let outcome = reply(core.resume(Event::Scanned(Err(Error::LinkError("NoRadio".to_string())))));
    assert_eq!(outcome, Err(Error::LinkError("NoRadio".to_string())));
}

#[test]
fn scan_selected_returns_its_own_result() {
    let mut core: ServerCore<u32> = ServerCore::new("1".to_string());
    let uris = vec!["radio://0/1/2M".to_string(), "radio://0/2/2M".to_string()];
    match core.begin(Methods::ScanSelected { uris: uris.clone() }) {
        Step::ScanSelected { uris: asked } => assert_eq!(asked, uris),
        _ => panic!("expected a scan-selected step"),
    }
    let found = vec!["radio://0/2/2M".to_string()];
    let outcome = reply(core.resume(Event::Scanned(Ok(found.clone()))));
    assert_eq!(outcome, Ok(Results::ScanSelected { found }));
}

#[test]
fn connect_reports_status_and_swapped_ports() {
    let mut core: ServerCore<u32> = ServerCore::new("1".to_string());
    let outcome = connect_new(&mut core, 7);
    assert_eq!(
        outcome,
        Ok(Results::Connect { connected: true, status: "Connected".to_string(), push: 50001, pull: 50002 })
    );
    assert_eq!(core.connection(&URI.to_string()), Some(&7));
}

#[test]
fn connect_that_comes_up_disconnected() {
    let mut core: ServerCore<u32> = ServerCore::new("1".to_string());
    let _ = core.begin(Methods::Connect { uri: URI.to_string() });
    let outcome = reply(core.resume(opened(3, ConnectionStatus::Disconnected("timeout".to_string()))));
    assert_eq!(
        outcome,
        Ok(Results::Connect {
            connected: false,
            status: "Disconnected: timeout".to_string(),
            push: 50001,
            pull: 50002,
        })
    );
    assert_eq!(core.connection(&URI.to_string()), Some(&3));
}

#[test]
fn connect_failure_leaves_no_entry() {
    let mut core: ServerCore<u32> = ServerCore::new("1".to_string());
    let _ = core.begin(Methods::Connect { uri: URI.to_string() });
    let outcome = reply(core.resume(Event::Opened(Err(Error::LinkError("InvalidUri".to_string())))));
    assert_eq!(outcome, Err(Error::LinkError("InvalidUri".to_string())));
    assert_eq!(core.connection(&URI.to_string()), None);
    assert!(core.is_idle());
}

#[test]
fn connect_refused_while_active() {
    let mut core: ServerCore<u32> = ServerCore::new("1".to_string());
    connect_new(&mut core, 7).unwrap();
    match core.begin(Methods::Connect { uri: URI.to_string() }) {
        Step::ReadStatus { uri } => assert_eq!(uri, URI),
        _ => panic!("expected a status read"),
    }
    let outcome = reply(core.resume(Event::StatusRead(ConnectionStatus::Connected)));
    assert_eq!(outcome, Err(Error::ArgumentError("Connection already active!".to_string())));
    assert_eq!(core.connection(&URI.to_string()), Some(&7));
    assert!(core.is_idle());
}

#[test]
fn connect_replaces_disconnected_connection() {
    let mut core: ServerCore<u32> = ServerCore::new("1".to_string());
    connect_new(&mut core, 7).unwrap();
    let _ = core.begin(Methods::Connect { uri: URI.to_string() });
    match core.resume(Event::StatusRead(ConnectionStatus::Disconnected("lost".to_string()))) {
        Step::Open { uri } => assert_eq!(uri, URI),
        _ => panic!("expected an open step"),
    }
    assert_eq!(core.connection(&URI.to_string()), None);
    let outcome = reply(core.resume(opened(9, ConnectionStatus::Connected)));
    assert!(outcome.is_ok());
    assert_eq!(core.connection(&URI.to_string()), Some(&9));
}

#[test]
fn status_of_connection() {
    let mut core: ServerCore<u32> = ServerCore::new("1".to_string());
    connect_new(&mut core, 7).unwrap();
    match core.begin(Methods::GetConnectionStatus { uri: URI.to_string() }) {
        Step::ReadStatus { uri } => assert_eq!(core.connection(&uri), Some(&7)),
        _ => panic!("expected a status read"),
    }
    let outcome = reply(core.resume(Event::StatusRead(ConnectionStatus::Disconnected("Connection error: x".to_string()))));
    assert_eq!(
        outcome,
        Ok(Results::GetConnectionStatus {
            connected: false,
            status: "Disconnected: Connection error: x".to_string(),
        })
    );
}

#[test]
fn status_of_unknown_link_fails() {
    let mut core: ServerCore<u32> = ServerCore::new("1".to_string());
    let outcome = reply(core.begin(Methods::GetConnectionStatus { uri: "radio://0/1/2M".to_string() }));
    assert_eq!(
        outcome,
        Err(Error::ArgumentError("Connection does not exist for uri radio://0/1/2M".to_string()))
    );
    assert!(core.is_idle());
}

#[test]
fn disconnect_hands_back_connection_and_forgets_it() {
    let mut core: ServerCore<u32> = ServerCore::new("1".to_string());
    connect_new(&mut core, 7).unwrap();
    match core.begin(Methods::Disconnect { uri: URI.to_string() }) {
        Step::Close { connection } => assert_eq!(connection, 7),
        _ => panic!("expected a close step"),
    }
    assert_eq!(core.connection(&URI.to_string()), None);
    assert_eq!(reply(core.resume(Event::Closed)), Ok(Results::Disconnect));
    let again = reply(core.begin(Methods::Disconnect { uri: URI.to_string() }));
    assert_eq!(again, Err(Error::ArgumentError(format!("Connection does not exist for uri {}", URI))));
    let status = reply(core.begin(Methods::GetConnectionStatus { uri: URI.to_string() }));
    assert!(status.is_err());
}

#[test]
fn links_are_independent() {
    let mut core: ServerCore<u32> = ServerCore::new("1".to_string());
    connect_new(&mut core, 7).unwrap();
    let other = "radio://0/90/2M/E7E7E7E7E7".to_string();
    match core.begin(Methods::Connect { uri: other.clone() }) {
        Step::Open { .. } => {}
        _ => panic!("expected an open step"),
    }
    reply(core.resume(opened(8, ConnectionStatus::Connected))).unwrap();
    assert_eq!(core.connection(&URI.to_string()), Some(&7));
    assert_eq!(core.connection(&other), Some(&8));
    match core.begin(Methods::Disconnect { uri: URI.to_string() }) {
        Step::Close { connection } => assert_eq!(connection, 7),
        _ => panic!("expected a close step"),
    }
    reply(core.resume(Event::Closed)).unwrap();
    assert_eq!(core.connection(&other), Some(&8));
}

#[test]
fn pending_values_compare() {
    assert_eq!(Pending::Connect { uri: "a".to_string() }, Pending::Connect { uri: "a".to_string() });
    assert_ne!(Pending::Idle, Pending::Close);
}

#[test]
fn disconnected_link_stays_unknown_across_requests() {
    let mut core: ServerCore<u32> = ServerCore::new("1".to_string());
    connect_new(&mut core, 7).unwrap();
    let _ = core.begin(Methods::Disconnect { uri: URI.to_string() });
    reply(core.resume(Event::Closed)).unwrap();
    let _ = core.begin(Methods::Scan { address: [0xe7; 5] });
    reply(core.resume(Event::Scanned(Ok(vec![URI.to_string()])))).unwrap();
    let other = "radio://0/90/2M".to_string();
    let _ = core.begin(Methods::Connect { uri: other.clone() });
    reply(core.resume(opened(8, ConnectionStatus::Connected))).unwrap();
    let _ = reply(core.begin(Methods::GetVersion));
    let status = reply(core.begin(Methods::GetConnectionStatus { uri: URI.to_string() }));
    assert_eq!(status, Err(Error::ArgumentError(format!("Connection does not exist for uri {}", URI))));
    let again = reply(core.begin(Methods::Disconnect { uri: URI.to_string() }));
    assert_eq!(again, Err(Error::ArgumentError(format!("Connection does not exist for uri {}", URI))));
    assert_eq!(core.connection(&URI.to_string()), None);
}
