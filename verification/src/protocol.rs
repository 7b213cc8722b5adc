//! The closed set of control and data messages exchanged between client and
//! relay.  Exactly one message travels per encrypted frame.

use vstd::prelude::*;

verus! {

/// Mathematical model of a message: the same six variants over sequences.
pub enum MessageModel {
    ConnectRequest { client_id: Seq<char>, public_key: Seq<u8> },
    ConnectResponse {
        relay_id: Seq<char>,
        public_key: Seq<u8>,
        success: bool,
        message: Option<Seq<char>>,
    },
    CircuitCreate { circuit_id: u64, public_key: Seq<u8> },
    CircuitCreated { circuit_id: u64, success: bool, message: Option<Seq<char>> },
    Data { circuit_id: u64, payload: Seq<u8> },
    Disconnect,
}

/// One protocol message.  A variant tag followed by its fields in fixed
/// order is what travels, encrypted, inside a frame.
pub enum PhantomBandMessage {
    ConnectRequest { client_id: String, public_key: [u8; 32] },
    ConnectResponse {
        relay_id: String,
        public_key: [u8; 32],
        success: bool,
        message: Option<String>,
    },
    CircuitCreate { circuit_id: u64, public_key: [u8; 32] },
    CircuitCreated { circuit_id: u64, success: bool, message: Option<String> },
    Data { circuit_id: u64, payload: Vec<u8> },
    Disconnect,
}

impl View for PhantomBandMessage {
    type V = MessageModel;

    open spec fn view(&self) -> MessageModel {
        match self {
            PhantomBandMessage::ConnectRequest { client_id, public_key } => {
                MessageModel::ConnectRequest { client_id: client_id@, public_key: public_key@ }
            },
            PhantomBandMessage::ConnectResponse { relay_id, public_key, success, message } => {
                MessageModel::ConnectResponse {
                    relay_id: relay_id@,
                    public_key: public_key@,
                    success: *success,
                    message: match message {
                        Some(m) => Some(m@),
                        None => None,
                    },
                }
            },
            PhantomBandMessage::CircuitCreate { circuit_id, public_key } => {
                MessageModel::CircuitCreate { circuit_id: *circuit_id, public_key: public_key@ }
            },
            PhantomBandMessage::CircuitCreated { circuit_id, success, message } => {
                MessageModel::CircuitCreated {
                    circuit_id: *circuit_id,
                    success: *success,
                    message: match message {
                        Some(m) => Some(m@),
                        None => None,
                    },
                }
            },
            PhantomBandMessage::Data { circuit_id, payload } => {
                MessageModel::Data { circuit_id: *circuit_id, payload: payload@ }
            },
            PhantomBandMessage::Disconnect => MessageModel::Disconnect,
        }
    }
}

} // verus!
