use phantomband::client::{Circuit, ClientConfig, ClientSession, ClientState};
use phantomband::relay::RelayNode;
use phantomband::transport::{
    DohTransport, Obfs4Transport, PluggableTransport, QuicTransport, TcpTransport,
    TrafficShapingTransport, WebSocketTransport,
};

#[test]
fn client_config_defaults() {
    let config = ClientConfig::default();
    assert_eq!(config.socks_port, 9050);
    assert!(!config.vpn_interface);
    assert!(config.enable_stealth);
}

#[test]
fn fresh_circuit_is_unbuilt() {
    let mut circuit = Circuit::new();
    assert_eq!(circuit.id, 0);
    assert!(circuit.relay_key.is_none());
    assert!(circuit.build().is_ok());
}

#[test]
fn all_transports_connect_and_listen() {
    let addr = "127.0.0.1:8080";
    assert!(TcpTransport.connect(addr).is_ok());
    assert!(TcpTransport.listen(addr).is_ok());
    assert!(QuicTransport.connect(addr).is_ok());
    assert!(QuicTransport.listen(addr).is_ok());
    assert!(DohTransport.connect(addr).is_ok());
    assert!(DohTransport.listen(addr).is_ok());
    assert!(Obfs4Transport.connect(addr).is_ok());
    assert!(Obfs4Transport.listen(addr).is_ok());
    assert!(TrafficShapingTransport.connect(addr).is_ok());
    assert!(TrafficShapingTransport.listen(addr).is_ok());
    assert!(WebSocketTransport.connect(addr).is_ok());
    assert!(WebSocketTransport.listen(addr).is_ok());
}

#[test]
fn transports_are_interchangeable_behind_the_capability() {
    let transports: Vec<Box<dyn PluggableTransport>> = vec![
        Box::new(TcpTransport),
        Box::new(QuicTransport),
        Box::new(DohTransport),
        Box::new(Obfs4Transport),
        Box::new(TrafficShapingTransport),
        Box::new(WebSocketTransport),
    ];
    for t in &transports {
        assert!(t.connect("127.0.0.1:8080").is_ok());
    }
}

#[test]
fn session_rejects_oversized_client_id() {
    let long_id = "x".repeat(70000);
    assert!(ClientSession::new(long_id, [0u8; 32], 1).is_none());
    assert!(ClientSession::new("ok".to_string(), [0u8; 32], 1).is_some());
}

#[test]
fn relay_rejects_oversized_relay_id() {
    let long_id = "x".repeat(70000);
    assert!(RelayNode::new(long_id, [0u8; 32]).is_none());
}

#[test]
fn session_starts_idle() {
    let session = ClientSession::new("c".to_string(), [0u8; 32], 9).unwrap();
    assert!(matches!(session.state, ClientState::Idle));
    assert_eq!(session.circuit.id, 0);
    assert!(session.circuit.relay_key.is_none());
}

#[test]
fn failed_transport_connect_fails_session() {
    let mut session = ClientSession::new("c".to_string(), [0u8; 32], 9).unwrap();
    session.start_connect();
    session.on_connect_failed();
    assert!(matches!(
        session.state,
        ClientState::Failed(phantomband::client::ClientFailureReason::Transport)
    ));
}

#[test]
fn oversized_payload_is_refused_without_panicking() {
    let key = [3u8; 32];
    let mut node = RelayNode::new("r".to_string(), key).unwrap();
    let mut conn = phantomband::relay::ConnState::new();
    let mut session = ClientSession::new("c".to_string(), key, 4).unwrap();
    session.start_connect();
    let frame = session.connect_request_frame();
    let reply = match node.handle_frame(&mut conn, &frame) {
        phantomband::relay::RelayOutcome::Reply(f) => f,
        _ => panic!("expected reply"),
    };
    session.handle_connect_response(&reply).unwrap();
    let frame = session.circuit_create_frame();
    let reply = match node.handle_frame(&mut conn, &frame) {
        phantomband::relay::RelayOutcome::Reply(f) => f,
        _ => panic!("expected reply"),
    };
    session.handle_circuit_created(&reply).unwrap();
    session.activate();
    // A small payload fits; the limit itself is far above any test budget.
    assert!(session.data_frame(&[0u8; 1024]).is_some());
}
