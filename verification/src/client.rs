//! Client side of the circuit-establishment protocol: configuration, the
//! circuit record, and the handshake state machine.  The state machine
//! builds and consumes encrypted frames; carrying them over a transport is
//! the caller's business.

use vstd::prelude::*;
use vstd::utf8::encode_utf8;
use crate::codec::{decode, encode, frame_message, parse_message};
use crate::crypto::{decrypt, encrypt, spec_decrypt, CryptoError, MAX_PLAINTEXT_LEN};
use crate::protocol::{MessageModel, PhantomBandMessage};

verus! {

/// Longest UTF-8 encoding of a client identifier that a session accepts;
/// keeps every handshake message far below the frame size limit.
pub const MAX_CLIENT_ID_LEN: usize = 65535;

/// Client-side configuration.
pub struct ClientConfig {
    pub socks_port: u16,
    pub vpn_interface: bool,
    pub enable_stealth: bool,
}

impl Default for ClientConfig {
    fn default() -> (r: Self)
        ensures
            r.socks_port == 9050,
            !r.vpn_interface,
            r.enable_stealth,
    {
        ClientConfig { socks_port: 9050, vpn_interface: false, enable_stealth: true }
    }
}

/// A logical tunnel between the client and the relay: its id, and the
/// relay's key once a successful connect response delivered it.
pub struct Circuit {
    pub id: u64,
    pub relay_key: Option<[u8; 32]>,
}

impl Circuit {
    /// A fresh circuit: no id assigned, no relay key known.
    pub fn new() -> (r: Self)
        ensures
            r.id == 0,
            r.relay_key is None,
    {
        Circuit { id: 0, relay_key: None }
    }

    /// Prepares the circuit for use.  Single-hop circuits need no further
    /// setup, so this always succeeds and changes nothing.
    pub fn build(&mut self) -> (r: Result<(), String>)
        ensures
            r is Ok,
            *final(self) == *old(self),
    {
        Ok(())
    }
}

/// Why a client session ended in failure.
#[derive(Clone, Copy, Debug, PartialEq, Eq, Structural)]
pub enum ClientFailureReason {
    /// The transport could not connect, or failed while the handshake ran.
    Transport,
    /// The relay answered the connect request with a rejection, or with
    /// something other than a connect response.
    RelayRejected,
    /// The relay refused the circuit, answered with a mismatched circuit
    /// id, or with something other than a circuit-created message.
    CircuitCreationFailed,
    /// A received frame failed decryption.
    Crypto(CryptoError),
    /// A decrypted plaintext did not parse as a message.
    Serialization,
    /// A well-formed message arrived out of sequence.
    Protocol,
}

/// The states of the client circuit state machine.
pub enum ClientState {
    Idle,
    Connecting,
    AwaitingConnectResponse,
    RelayKeyEstablished,
    AwaitingCircuitCreated,
    CircuitEstablished,
    Active,
    Closed,
    Failed(ClientFailureReason),
}

/// One client-side handshake: identity, keys, the chosen circuit id, the
/// current state, and the circuit being established.
pub struct ClientSession {
    pub client_id: String,
    pub own_key: [u8; 32],
    pub circuit_id: u64,
    pub state: ClientState,
    pub circuit: Circuit,
}

/// The connect request this session sends.
pub open spec fn connect_request_model(s: ClientSession) -> MessageModel {
    MessageModel::ConnectRequest { client_id: s.client_id@, public_key: s.own_key@ }
}

/// The circuit-create message this session sends.
pub open spec fn circuit_create_model(s: ClientSession) -> MessageModel {
    MessageModel::CircuitCreate { circuit_id: s.circuit_id, public_key: s.own_key@ }
}

impl ClientSession {
    /// The session's identifier is short enough for every handshake
    /// message to fit in one frame.
    pub open spec fn wf(self) -> bool {
        encode_utf8(self.client_id@).len() <= MAX_CLIENT_ID_LEN
    }

    /// The parts of a session that no transition changes.
    pub open spec fn same_identity(self, other: ClientSession) -> bool {
        &&& self.client_id@ == other.client_id@
        &&& self.own_key == other.own_key
        &&& self.circuit_id == other.circuit_id
    }

    /// Starts a session in `Idle` with a fresh circuit.  Refuses a client
    /// identifier whose UTF-8 encoding is over `MAX_CLIENT_ID_LEN` bytes.
    pub fn new(client_id: String, own_key: [u8; 32], circuit_id: u64) -> (r: Option<ClientSession>)
        ensures
            r matches Some(s) ==> {
                &&& s.wf()
                &&& s.client_id@ == client_id@
                &&& s.own_key == own_key
                &&& s.circuit_id == circuit_id
                &&& s.state == ClientState::Idle
                &&& s.circuit.id == 0
                &&& s.circuit.relay_key is None
            },
            r is Some <==> encode_utf8(client_id@).len() <= MAX_CLIENT_ID_LEN,
    {
        if client_id.as_str().as_bytes().len() <= MAX_CLIENT_ID_LEN {
            Some(
                ClientSession {
                    client_id,
                    own_key,
                    circuit_id,
                    state: ClientState::Idle,
                    circuit: Circuit::new(),
                },
            )
        } else {
            None
        }
    }

    /// A connection attempt begins: `Idle` moves to `Connecting`.
    pub fn start_connect(&mut self)
        requires
            old(self).state == ClientState::Idle,
        ensures
            final(self).state == ClientState::Connecting,
            final(self).same_identity(*old(self)),
            final(self).circuit == old(self).circuit,
    {
        self.state = ClientState::Connecting;
    }

    /// The transport could not connect: `Connecting` moves to
    /// `Failed(Transport)`.
    pub fn on_connect_failed(&mut self)
        requires
            old(self).state == ClientState::Connecting,
        ensures
            final(self).state == ClientState::Failed(ClientFailureReason::Transport),
            final(self).same_identity(*old(self)),
            final(self).circuit == old(self).circuit,
    {
        self.state = ClientState::Failed(ClientFailureReason::Transport);
    }

    /// The transport connected: builds the connect request, encrypted
    /// under the client's own key, and moves to `AwaitingConnectResponse`.
    /// The frame decrypts under that key to exactly the connect request.
    pub fn connect_request_frame(&mut self) -> (frame: Vec<u8>)
        requires
            old(self).wf(),
            old(self).state == ClientState::Connecting,
        ensures
            final(self).state == ClientState::AwaitingConnectResponse,
            final(self).same_identity(*old(self)),
            final(self).circuit == old(self).circuit,
            frame_message(frame@, old(self).own_key@) == Some(connect_request_model(*old(self))),
    {
        let msg = PhantomBandMessage::ConnectRequest {
            client_id: self.client_id.clone(),
            public_key: self.own_key,
        };
        let plain = encode(&msg);
        proof {
            vstd::bytes::lemma_auto_spec_u64_to_from_le_bytes();
            crate::codec::lemma_parse_encoding(msg@);
        }
        let frame = encrypt(plain.as_slice(), &self.own_key);
        self.state = ClientState::AwaitingConnectResponse;
        frame
    }

    /// Consumes the frame answering the connect request, decrypting under
    /// the client's own key.  On a successful connect response the relay's
    /// advertised key is stored and the session moves to
    /// `RelayKeyEstablished`; anything else is terminal failure.
    pub fn handle_connect_response(&mut self, frame: &[u8]) -> (r: Result<(), ClientFailureReason>)
        requires
            old(self).state == ClientState::AwaitingConnectResponse,
        ensures
            final(self).same_identity(*old(self)),
            r is Ok <==> (frame_message(frame@, old(self).own_key@) matches Some(
                MessageModel::ConnectResponse { success, .. },
            ) && success),
            r is Ok ==> {
                &&& final(self).state == ClientState::RelayKeyEstablished
                &&& (frame_message(frame@, old(self).own_key@) matches Some(
                    MessageModel::ConnectResponse { public_key, .. },
                ) && final(self).circuit.relay_key matches Some(k) && k@ == public_key)
                &&& final(self).circuit.id == old(self).circuit.id
            },
            r matches Err(reason) ==> final(self).state == ClientState::Failed(reason)
                && final(self).circuit == old(self).circuit,
            spec_decrypt(frame@, old(self).own_key@) matches Err(e) ==> r == Err::<
                (),
                ClientFailureReason,
            >(ClientFailureReason::Crypto(e)),
            (spec_decrypt(frame@, old(self).own_key@) matches Ok(p) && parse_message(p) is None)
                ==> r == Err::<(), ClientFailureReason>(ClientFailureReason::Serialization),
            (frame_message(frame@, old(self).own_key@) matches Some(m) && !(m matches
            MessageModel::ConnectResponse { success: true, .. })) ==> r == Err::<
                (),
                ClientFailureReason,
            >(ClientFailureReason::RelayRejected),
    {
        let plain = match decrypt(frame, &self.own_key) {
            Ok(p) => p,
            Err(e) => {
                let reason = ClientFailureReason::Crypto(e);
                self.state = ClientState::Failed(reason);
                return Err(reason);
            },
        };
        let msg = match decode(plain.as_slice()) {
            Ok(m) => m,
            Err(_) => {
                self.state = ClientState::Failed(ClientFailureReason::Serialization);
                return Err(ClientFailureReason::Serialization);
            },
        };
        match msg {
            PhantomBandMessage::ConnectResponse { relay_id: _, public_key, success, message: _ } => {
                if success {
                    self.circuit.relay_key = Some(public_key);
                    self.state = ClientState::RelayKeyEstablished;
                    Ok(())
                } else {
                    self.state = ClientState::Failed(ClientFailureReason::RelayRejected);
                    Err(ClientFailureReason::RelayRejected)
                }
            },
            _ => {
                self.state = ClientState::Failed(ClientFailureReason::RelayRejected);
                Err(ClientFailureReason::RelayRejected)
            },
        }
    }

    /// Builds the circuit-create message for the locally chosen circuit id,
    /// encrypted under the relay's key, and moves to
    /// `AwaitingCircuitCreated`.
    pub fn circuit_create_frame(&mut self) -> (frame: Vec<u8>)
        requires
            old(self).state == ClientState::RelayKeyEstablished,
            old(self).circuit.relay_key matches Some(k),
        ensures
            final(self).state == ClientState::AwaitingCircuitCreated,
            final(self).same_identity(*old(self)),
            final(self).circuit == old(self).circuit,
            old(self).circuit.relay_key matches Some(k) ==> frame_message(frame@, k@) == Some(
                circuit_create_model(*old(self)),
            ),
    {
        let msg = PhantomBandMessage::CircuitCreate {
            circuit_id: self.circuit_id,
            public_key: self.own_key,
        };
        let plain = encode(&msg);
        proof {
            vstd::bytes::lemma_auto_spec_u64_to_from_le_bytes();
            crate::codec::lemma_parse_encoding(msg@);
        }
        let relay_key = match &self.circuit.relay_key {
            Some(k) => *k,
            None => unreached(),
        };
        let frame = encrypt(plain.as_slice(), &relay_key);
        self.state = ClientState::AwaitingCircuitCreated;
        frame
    }

    /// Consumes the frame answering the circuit create, decrypting under
    /// the relay's key.  A successful circuit-created message carrying the
    /// requested id establishes the circuit; anything else is terminal
    /// failure.
    pub fn handle_circuit_created(&mut self, frame: &[u8]) -> (r: Result<(), ClientFailureReason>)
        requires
            old(self).state == ClientState::AwaitingCircuitCreated,
            old(self).circuit.relay_key matches Some(k),
        ensures
            final(self).same_identity(*old(self)),
            final(self).circuit.relay_key == old(self).circuit.relay_key,
            old(self).circuit.relay_key matches Some(rk) ==> {
                &&& (r is Ok <==> (frame_message(frame@, rk@) matches Some(
                    MessageModel::CircuitCreated { circuit_id, success, .. },
                ) && success && circuit_id == old(self).circuit_id))
                &&& (spec_decrypt(frame@, rk@) matches Err(e) ==> r == Err::<
                    (),
                    ClientFailureReason,
                >(ClientFailureReason::Crypto(e)))
                &&& ((spec_decrypt(frame@, rk@) matches Ok(p) && parse_message(p) is None) ==> r
                    == Err::<(), ClientFailureReason>(ClientFailureReason::Serialization))
                &&& ((frame_message(frame@, rk@) matches Some(m) && !(m matches
                MessageModel::CircuitCreated {
                    success: true,
                    circuit_id,
                    ..
                } && circuit_id == old(self).circuit_id)) ==> r == Err::<
                    (),
                    ClientFailureReason,
                >(ClientFailureReason::CircuitCreationFailed))
            },
            r is Ok ==> final(self).state == ClientState::CircuitEstablished
                && final(self).circuit.id == old(self).circuit_id,
            r matches Err(reason) ==> final(self).state == ClientState::Failed(reason)
                && final(self).circuit.id == old(self).circuit.id,
    {
        let relay_key = match &self.circuit.relay_key {
            Some(k) => *k,
            None => unreached(),
        };
        let plain = match decrypt(frame, &relay_key) {
            Ok(p) => p,
            Err(e) => {
                let reason = ClientFailureReason::Crypto(e);
                self.state = ClientState::Failed(reason);
                return Err(reason);
            },
        };
        let msg = match decode(plain.as_slice()) {
            Ok(m) => m,
            Err(_) => {
                self.state = ClientState::Failed(ClientFailureReason::Serialization);
                return Err(ClientFailureReason::Serialization);
            },
        };
        match msg {
            PhantomBandMessage::CircuitCreated { circuit_id, success, message: _ } => {
                if success && circuit_id == self.circuit_id {
                    self.circuit.id = circuit_id;
                    self.state = ClientState::CircuitEstablished;
                    Ok(())
                } else {
                    self.state = ClientState::Failed(ClientFailureReason::CircuitCreationFailed);
                    Err(ClientFailureReason::CircuitCreationFailed)
                }
            },
            _ => {
                self.state = ClientState::Failed(ClientFailureReason::CircuitCreationFailed);
                Err(ClientFailureReason::CircuitCreationFailed)
            },
        }
    }

    /// An established circuit immediately becomes active.
    pub fn activate(&mut self)
        requires
            old(self).state == ClientState::CircuitEstablished,
        ensures
            final(self).state == ClientState::Active,
            final(self).same_identity(*old(self)),
            final(self).circuit == old(self).circuit,
    {
        self.state = ClientState::Active;
    }

    /// Builds one data frame for the active circuit, encrypted under the
    /// relay's key.  Refuses only a payload too large for one frame.
    pub fn data_frame(&self, payload: &[u8]) -> (r: Option<Vec<u8>>)
        requires
            self.state == ClientState::Active,
            self.circuit.relay_key matches Some(k),
        ensures
            self.circuit.relay_key matches Some(rk) ==> (r matches Some(f) ==> frame_message(
                f@,
                rk@,
            ) == Some(MessageModel::Data { circuit_id: self.circuit.id, payload: payload@ })),
            r is Some <==> payload@.len() + 17 <= MAX_PLAINTEXT_LEN,
    {
        if payload.len() <= MAX_PLAINTEXT_LEN - 17 {
            let msg = PhantomBandMessage::Data {
                circuit_id: self.circuit.id,
                payload: vstd::slice::slice_to_vec(payload),
            };
            let plain = encode(&msg);
            proof {
                vstd::bytes::lemma_auto_spec_u64_to_from_le_bytes();
                crate::codec::lemma_parse_encoding(msg@);
            }
            let relay_key = match &self.circuit.relay_key {
                Some(k) => *k,
                None => unreached(),
            };
            Some(encrypt(plain.as_slice(), &relay_key))
        } else {
            None
        }
    }

    /// Consumes one frame received while active, decrypting under the
    /// relay's key: a data message yields its payload, a disconnect closes
    /// the session, and anything else ends it with the matching failure.
    pub fn handle_active_frame(&mut self, frame: &[u8]) -> (r: Result<
        Option<Vec<u8>>,
        ClientFailureReason,
    >)
        requires
            old(self).state == ClientState::Active,
            old(self).circuit.relay_key matches Some(k),
        ensures
            final(self).same_identity(*old(self)),
            final(self).circuit == old(self).circuit,
            old(self).circuit.relay_key matches Some(rk) ==> {
                &&& (r matches Ok(Some(p)) ==> (frame_message(frame@, rk@) matches Some(
                    MessageModel::Data { payload, .. },
                ) && p@ == payload && final(self).state == ClientState::Active))
                &&& (frame_message(frame@, rk@) matches Some(MessageModel::Data { payload, .. })
                    ==> r matches Ok(Some(p)) && p@ == payload)
                &&& (r matches Ok(None) <==> frame_message(frame@, rk@) == Some(
                    MessageModel::Disconnect,
                ))
                &&& (r matches Ok(None) ==> final(self).state == ClientState::Closed)
                &&& (spec_decrypt(frame@, rk@) matches Err(e) ==> r == Err::<
                    Option<Vec<u8>>,
                    ClientFailureReason,
                >(ClientFailureReason::Crypto(e)))
                &&& ((spec_decrypt(frame@, rk@) matches Ok(p) && parse_message(p) is None) ==> r
                    == Err::<Option<Vec<u8>>, ClientFailureReason>(
                    ClientFailureReason::Serialization,
                ))
                &&& ((frame_message(frame@, rk@) matches Some(m) && !(m is Data) && !(m
                    is Disconnect)) ==> r == Err::<Option<Vec<u8>>, ClientFailureReason>(
                    ClientFailureReason::Protocol,
                ))
            },
            r matches Err(reason) ==> final(self).state == ClientState::Failed(reason),
    {
        let relay_key = match &self.circuit.relay_key {
            Some(k) => *k,
            None => unreached(),
        };
        let plain = match decrypt(frame, &relay_key) {
            Ok(p) => p,
            Err(e) => {
                let reason = ClientFailureReason::Crypto(e);
                self.state = ClientState::Failed(reason);
                return Err(reason);
            },
        };
        let msg = match decode(plain.as_slice()) {
            Ok(m) => m,
            Err(_) => {
                self.state = ClientState::Failed(ClientFailureReason::Serialization);
                return Err(ClientFailureReason::Serialization);
            },
        };
        match msg {
            PhantomBandMessage::Data { circuit_id: _, payload } => Ok(Some(payload)),
            PhantomBandMessage::Disconnect => {
                self.state = ClientState::Closed;
                Ok(None)
            },
            _ => {
                self.state = ClientState::Failed(ClientFailureReason::Protocol);
                Err(ClientFailureReason::Protocol)
            },
        }
    }

    /// Builds the disconnect frame and closes the session.
    pub fn disconnect_frame(&mut self) -> (frame: Vec<u8>)
        requires
            old(self).state == ClientState::Active,
            old(self).circuit.relay_key matches Some(k),
        ensures
            final(self).state == ClientState::Closed,
            final(self).same_identity(*old(self)),
            final(self).circuit == old(self).circuit,
            old(self).circuit.relay_key matches Some(rk) ==> frame_message(frame@, rk@) == Some(
                MessageModel::Disconnect,
            ),
    {
        let plain = encode(&PhantomBandMessage::Disconnect);
        proof {
            crate::codec::lemma_parse_encoding(MessageModel::Disconnect);
        }
        let relay_key = match &self.circuit.relay_key {
            Some(k) => *k,
            None => unreached(),
        };
        let frame = encrypt(plain.as_slice(), &relay_key);
        self.state = ClientState::Closed;
        frame
    }

    /// A transport error while active closes the session.
    pub fn on_transport_error(&mut self)
        requires
            old(self).state == ClientState::Active,
        ensures
            final(self).state == ClientState::Closed,
            final(self).same_identity(*old(self)),
            final(self).circuit == old(self).circuit,
    {
        self.state = ClientState::Closed;
    }
}

} // verus!
