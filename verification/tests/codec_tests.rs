use phantomband::codec::{decode, encode};
use phantomband::protocol::PhantomBandMessage;

#[test]
fn connect_request_round_trips() {
    let m = PhantomBandMessage::ConnectRequest {
        client_id: "c1".to_string(),
        public_key: [7u8; 32],
    };
    let bytes = encode(&m);
    match decode(&bytes) {
        Ok(PhantomBandMessage::ConnectRequest { client_id, public_key }) => {
            assert_eq!(client_id, "c1");
            assert_eq!(public_key, [7u8; 32]);
        }
        other => panic!("unexpected decode result: {:?}", other.is_ok()),
    }
}

#[test]
fn connect_response_round_trips_with_message() {
    let m = PhantomBandMessage::ConnectResponse {
        relay_id: "relay-α".to_string(),
        public_key: [9u8; 32],
        success: true,
        message: Some("héllo".to_string()),
    };
    let bytes = encode(&m);
    match decode(&bytes) {
        Ok(PhantomBandMessage::ConnectResponse { relay_id, public_key, success, message }) => {
            assert_eq!(relay_id, "relay-α");
            assert_eq!(public_key, [9u8; 32]);
            assert!(success);
            assert_eq!(message, Some("héllo".to_string()));
        }
        other => panic!("unexpected decode result: {:?}", other.is_ok()),
    }
}

#[test]
fn connect_response_round_trips_without_message() {
    let m = PhantomBandMessage::ConnectResponse {
        relay_id: String::new(),
        public_key: [0u8; 32],
        success: false,
        message: None,
    };
    let bytes = encode(&m);
    match decode(&bytes) {
        Ok(PhantomBandMessage::ConnectResponse { relay_id, success, message, .. }) => {
            assert_eq!(relay_id, "");
            assert!(!success);
            assert_eq!(message, None);
        }
        other => panic!("unexpected decode result: {:?}", other.is_ok()),
    }
}

#[test]
fn circuit_create_has_exact_wire_bytes() {
    let mut key = [0u8; 32];
    for (i, b) in key.iter_mut().enumerate() {
        *b = i as u8;
    }
    let m = PhantomBandMessage::CircuitCreate { circuit_id: 0x0102030405060708, public_key: key };
    let bytes = encode(&m);
    let mut expected = vec![2u8, 8, 7, 6, 5, 4, 3, 2, 1];
    expected.extend_from_slice(&key);
    assert_eq!(bytes, expected);
}

#[test]
fn circuit_created_round_trips() {
    let m = PhantomBandMessage::CircuitCreated {
        circuit_id: 12345,
        success: true,
        message: Some("ok".to_string()),
    };
    let bytes = encode(&m);
    match decode(&bytes) {
        Ok(PhantomBandMessage::CircuitCreated { circuit_id, success, message }) => {
            assert_eq!(circuit_id, 12345);
            assert!(success);
            assert_eq!(message, Some("ok".to_string()));
        }
        other => panic!("unexpected decode result: {:?}", other.is_ok()),
    }
}

#[test]
fn data_round_trips() {
    let m = PhantomBandMessage::Data { circuit_id: 42, payload: vec![0, 1, 2, 255] };
    let bytes = encode(&m);
    match decode(&bytes) {
        Ok(PhantomBandMessage::Data { circuit_id, payload }) => {
            assert_eq!(circuit_id, 42);
            assert_eq!(payload, vec![0, 1, 2, 255]);
        }
        other => panic!("unexpected decode result: {:?}", other.is_ok()),
    }
}

#[test]
fn disconnect_is_one_tag_byte() {
    let bytes = encode(&PhantomBandMessage::Disconnect);
    assert_eq!(bytes, vec![5u8]);
    assert!(matches!(decode(&[5u8]), Ok(PhantomBandMessage::Disconnect)));
}

#[test]
fn empty_input_is_rejected() {
    assert!(decode(&[]).is_err());
}

#[test]
fn unknown_tag_is_rejected() {
    assert!(decode(&[6u8]).is_err());
    assert!(decode(&[255u8]).is_err());
}

#[test]
fn truncated_fields_are_rejected() {
    // Data with a length prefix promising more bytes than remain.
    let mut bytes = encode(&PhantomBandMessage::Data { circuit_id: 1, payload: vec![1, 2, 3] });
    bytes.truncate(bytes.len() - 1);
    assert!(decode(&bytes).is_err());
    // A circuit-create cut inside the key.
    let bytes = encode(&PhantomBandMessage::CircuitCreate { circuit_id: 1, public_key: [0u8; 32] });
    assert!(decode(&bytes[..bytes.len() - 1]).is_err());
}

#[test]
fn trailing_bytes_are_rejected() {
    let mut bytes = encode(&PhantomBandMessage::Disconnect);
    bytes.push(0);
    assert!(decode(&bytes).is_err());
}

#[test]
fn bad_boolean_byte_is_rejected() {
    let m = PhantomBandMessage::CircuitCreated { circuit_id: 1, success: true, message: None };
    let mut bytes = encode(&m);
    // The success byte sits right after the tag and the 8-byte circuit id.
    bytes[9] = 2;
    assert!(decode(&bytes).is_err());
}

#[test]
fn invalid_utf8_in_identifier_is_rejected() {
    let m = PhantomBandMessage::ConnectRequest { client_id: "ab".to_string(), public_key: [0u8; 32] };
    let mut bytes = encode(&m);
    // Overwrite the identifier's first byte with a lone continuation byte.
    bytes[9] = 0xFF;
    assert!(decode(&bytes).is_err());
}

#[test]
fn circuit_id_boundary_values_round_trip() {
    for circuit_id in [0u64, 1, u64::MAX] {
        let m = PhantomBandMessage::Data { circuit_id, payload: vec![] };
        let bytes = encode(&m);
        match decode(&bytes) {
            Ok(PhantomBandMessage::Data { circuit_id: got, payload }) => {
                assert_eq!(got, circuit_id);
                assert!(payload.is_empty());
            }
            other => panic!("unexpected decode result: {:?}", other.is_ok()),
        }
    }
}
