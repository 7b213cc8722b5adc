//! End-to-end handshake scenarios, driving the client state machine and the
//! relay's frame handler against each other in memory.  The protocol keeps
//! the prototype's quirk of using each party's 256-bit secret directly as
//! the shared AEAD key, so a completed handshake needs both parties keyed
//! alike.

use phantomband::client::{ClientSession, ClientState};
use phantomband::crypto::{decrypt, encrypt};
use phantomband::codec::{decode, encode};
use phantomband::protocol::PhantomBandMessage;
use phantomband::relay::{ConnState, RelayError, RelayNode, RelayOutcome};

const SHARED_KEY: [u8; 32] = [7u8; 32];

fn relay() -> RelayNode {
    RelayNode::new("test_relay_id".to_string(), SHARED_KEY).expect("relay id fits")
}

fn client(circuit_id: u64) -> ClientSession {
    ClientSession::new("c1".to_string(), SHARED_KEY, circuit_id).expect("client id fits")
}

fn reply_of(outcome: RelayOutcome) -> Vec<u8> {
    match outcome {
        RelayOutcome::Reply(f) => f,
        RelayOutcome::Disconnected => panic!("relay disconnected instead of replying"),
        RelayOutcome::Abort(e) => panic!("relay aborted instead of replying: {:?}", e),
    }
}

/// Runs the handshake up to an established, active circuit.
fn establish(
    session: &mut ClientSession,
    node: &mut RelayNode,
    conn: &mut ConnState,
) {
    session.start_connect();
    let frame = session.connect_request_frame();
    let reply = reply_of(node.handle_frame(conn, &frame));
    session.handle_connect_response(&reply).expect("connect response accepted");
    let frame = session.circuit_create_frame();
    let reply = reply_of(node.handle_frame(conn, &frame));
    session.handle_circuit_created(&reply).expect("circuit created accepted");
    session.activate();
}

#[test]
fn handshake_stores_relay_key() {
    let mut node = relay();
    let mut conn = ConnState::new();
    let mut session = client(12345);

    session.start_connect();
    let frame = session.connect_request_frame();
    let reply = reply_of(node.handle_frame(&mut conn, &frame));
    session.handle_connect_response(&reply).expect("connect response accepted");

    assert!(matches!(session.state, ClientState::RelayKeyEstablished));
    assert_eq!(session.circuit.relay_key, Some(SHARED_KEY));
    // The relay registered the client under its identifier.
    assert_eq!(node.registry.get(&"c1".to_string()), Some(SHARED_KEY));
}

#[test]
fn circuit_establishment_assigns_requested_id() {
    let mut node = relay();
    let mut conn = ConnState::new();
    let mut session = client(12345);
    establish(&mut session, &mut node, &mut conn);

    assert!(matches!(session.state, ClientState::Active));
    assert_eq!(session.circuit.id, 12345);
}

#[test]
fn data_echo_round_trips_payload() {
    let mut node = relay();
    let mut conn = ConnState::new();
    let mut session = client(12345);
    establish(&mut session, &mut node, &mut conn);

    let frame = session.data_frame(b"Hello PhantomBand!").expect("payload fits one frame");
    let reply = reply_of(node.handle_frame(&mut conn, &frame));
    let echoed = session.handle_active_frame(&reply).expect("echo accepted");
    assert_eq!(echoed, Some(b"Hello PhantomBand!".to_vec()));
    assert!(matches!(session.state, ClientState::Active));
}

#[test]
fn data_for_unknown_circuit_is_rejected_not_echoed() {
    let mut node = relay();
    let mut conn = ConnState::new();

    // A data message arrives before any circuit was created on this
    // connection; the relay must reject it rather than echo it.
    let msg = PhantomBandMessage::Data { circuit_id: 999, payload: b"probe".to_vec() };
    let frame = encrypt(&encode(&msg), &SHARED_KEY);
    match node.handle_frame(&mut conn, &frame) {
        RelayOutcome::Abort(RelayError::UnauthorizedCircuit) => {}
        RelayOutcome::Reply(_) => panic!("unauthorized data was echoed"),
        other => panic!(
            "unexpected outcome: {}",
            match other {
                RelayOutcome::Disconnected => "disconnected",
                _ => "other abort",
            }
        ),
    }
}

#[test]
fn data_for_foreign_circuit_on_established_connection_is_rejected() {
    let mut node = relay();
    let mut conn = ConnState::new();
    let mut session = client(12345);
    establish(&mut session, &mut node, &mut conn);

    // The connection created circuit 12345, not 54321.
    let msg = PhantomBandMessage::Data { circuit_id: 54321, payload: b"probe".to_vec() };
    let frame = encrypt(&encode(&msg), &SHARED_KEY);
    assert!(matches!(
        node.handle_frame(&mut conn, &frame),
        RelayOutcome::Abort(RelayError::UnauthorizedCircuit)
    ));
}

#[test]
fn disconnect_removes_registry_entry_and_fresh_connect_succeeds() {
    let mut node = relay();
    let mut conn = ConnState::new();
    let mut session = client(12345);
    establish(&mut session, &mut node, &mut conn);
    assert!(node.registry.get(&"c1".to_string()).is_some());

    let frame = session.disconnect_frame();
    assert!(matches!(node.handle_frame(&mut conn, &frame), RelayOutcome::Disconnected));
    assert!(matches!(session.state, ClientState::Closed));
    assert!(node.registry.get(&"c1".to_string()).is_none());

    // A later connect request under the same identifier starts fresh.
    let mut conn2 = ConnState::new();
    let mut session2 = client(777);
    session2.start_connect();
    let frame = session2.connect_request_frame();
    let reply = reply_of(node.handle_frame(&mut conn2, &frame));
    session2.handle_connect_response(&reply).expect("fresh connect accepted");
    assert_eq!(node.registry.get(&"c1".to_string()), Some(SHARED_KEY));
}

#[test]
fn connection_loss_removes_registry_entry() {
    let mut node = relay();
    let mut conn = ConnState::new();
    let mut session = client(12345);
    establish(&mut session, &mut node, &mut conn);
    assert!(node.registry.get(&"c1".to_string()).is_some());

    node.handle_peer_gone(&conn);
    assert!(node.registry.get(&"c1".to_string()).is_none());
}

#[test]
fn relay_rejection_fails_the_client() {
    let mut session = client(1);
    session.start_connect();
    let _ = session.connect_request_frame();

    let rejection = PhantomBandMessage::ConnectResponse {
        relay_id: "test_relay_id".to_string(),
        public_key: [9u8; 32],
        success: false,
        message: None,
    };
    let reply = encrypt(&encode(&rejection), &SHARED_KEY);
    let err = session.handle_connect_response(&reply).unwrap_err();
    assert!(matches!(
        err,
        phantomband::client::ClientFailureReason::RelayRejected
    ));
    assert!(matches!(session.state, ClientState::Failed(_)));
}

#[test]
fn garbled_response_fails_the_client_with_crypto_error() {
    let mut session = client(1);
    session.start_connect();
    let _ = session.connect_request_frame();

    let err = session.handle_connect_response(&[0u8; 40]).unwrap_err();
    assert!(matches!(err, phantomband::client::ClientFailureReason::Crypto(_)));
}

#[test]
fn mismatched_circuit_id_fails_circuit_creation() {
    let mut node = relay();
    let mut conn = ConnState::new();
    let mut session = client(12345);
    session.start_connect();
    let frame = session.connect_request_frame();
    let reply = reply_of(node.handle_frame(&mut conn, &frame));
    session.handle_connect_response(&reply).expect("connect response accepted");
    let _ = session.circuit_create_frame();

    let wrong = PhantomBandMessage::CircuitCreated {
        circuit_id: 54321,
        success: true,
        message: None,
    };
    let reply = encrypt(&encode(&wrong), &SHARED_KEY);
    let err = session.handle_circuit_created(&reply).unwrap_err();
    assert!(matches!(
        err,
        phantomband::client::ClientFailureReason::CircuitCreationFailed
    ));
}

#[test]
fn disconnect_received_while_active_closes_session() {
    let mut node = relay();
    let mut conn = ConnState::new();
    let mut session = client(12345);
    establish(&mut session, &mut node, &mut conn);

    let frame = encrypt(&encode(&PhantomBandMessage::Disconnect), &SHARED_KEY);
    let got = session.handle_active_frame(&frame).expect("disconnect accepted");
    assert_eq!(got, None);
    assert!(matches!(session.state, ClientState::Closed));
}

#[test]
fn relay_aborts_on_message_a_client_never_sends() {
    let mut node = relay();
    let mut conn = ConnState::new();

    let msg = PhantomBandMessage::CircuitCreated { circuit_id: 1, success: true, message: None };
    let frame = encrypt(&encode(&msg), &SHARED_KEY);
    assert!(matches!(
        node.handle_frame(&mut conn, &frame),
        RelayOutcome::Abort(RelayError::Protocol)
    ));
}

#[test]
fn relay_aborts_on_undecryptable_frame() {
    let mut node = relay();
    let mut conn = ConnState::new();
    assert!(matches!(
        node.handle_frame(&mut conn, &[1u8; 64]),
        RelayOutcome::Abort(RelayError::Crypto(_))
    ));
}

#[test]
fn relay_aborts_on_authenticated_garbage() {
    let mut node = relay();
    let mut conn = ConnState::new();
    // A frame that decrypts fine but does not parse as any message.
    let frame = encrypt(&[250u8, 0, 0], &SHARED_KEY);
    assert!(matches!(
        node.handle_frame(&mut conn, &frame),
        RelayOutcome::Abort(RelayError::Serialization)
    ));
}

#[test]
fn relay_reply_is_readable_by_decrypt_and_decode() {
    let mut node = relay();
    let mut conn = ConnState::new();
    let mut session = client(5);
    session.start_connect();
    let frame = session.connect_request_frame();
    let reply = reply_of(node.handle_frame(&mut conn, &frame));
    let plain = decrypt(&reply, &SHARED_KEY).expect("reply decrypts under the relay key");
    match decode(&plain) {
        Ok(PhantomBandMessage::ConnectResponse { relay_id, public_key, success, message }) => {
            assert_eq!(relay_id, "test_relay_id");
            assert_eq!(public_key, SHARED_KEY);
            assert!(success);
            assert_eq!(message, Some("Connection established.".to_string()));
        }
        _ => panic!("reply was not a connect response"),
    }
}

#[test]
fn handshake_cannot_start_when_parties_are_keyed_apart() {
    // The protocol uses each party's secret directly as the AEAD key, so a
    // relay keyed differently from the client cannot read the very first
    // frame and abandons the connection.
    let mut node = RelayNode::new("test_relay_id".to_string(), [1u8; 32]).unwrap();
    let mut conn = ConnState::new();
    let mut session = ClientSession::new("c1".to_string(), [2u8; 32], 1).unwrap();
    session.start_connect();
    let frame = session.connect_request_frame();
    assert!(matches!(
        node.handle_frame(&mut conn, &frame),
        RelayOutcome::Abort(RelayError::Crypto(_))
    ));
}
