//! Deterministic, self-describing binary encoding of protocol messages: a
//! one-byte variant tag followed by the variant's fields in fixed order,
//! every variable-length field prefixed by its byte length as a 64-bit
//! little-endian integer.  The encoding is the plaintext handed to the
//! cryptographic channel; it carries no framing of its own.

use vstd::prelude::*;
use vstd::bytes::{spec_u64_from_le_bytes, spec_u64_to_le_bytes, u64_from_le_bytes, u64_to_le_bytes};
use vstd::utf8::{decode_utf8, encode_utf8, valid_utf8};
use crate::protocol::{MessageModel, PhantomBandMessage};

verus! {

/// The decrypted plaintext does not parse as a message.
#[derive(Clone, Copy, Debug, PartialEq, Eq, Structural)]
pub struct SerializationError;

/// A length-prefixed byte field: the length as eight little-endian bytes,
/// then the bytes themselves.
pub open spec fn blob_encoding(b: Seq<u8>) -> Seq<u8> {
    spec_u64_to_le_bytes(b.len() as u64) + b
}

/// A string field: its UTF-8 bytes, length-prefixed.
pub open spec fn str_encoding(s: Seq<char>) -> Seq<u8> {
    blob_encoding(encode_utf8(s))
}

/// A boolean as one byte.
pub open spec fn bool_byte(b: bool) -> u8 {
    if b {
        1u8
    } else {
        0u8
    }
}

/// An optional string: a presence byte, then the string field if present.
pub open spec fn opt_str_encoding(m: Option<Seq<char>>) -> Seq<u8> {
    match m {
        Some(s) => seq![1u8] + str_encoding(s),
        None => seq![0u8],
    }
}

/// The byte encoding of one message.
pub open spec fn encoding(m: MessageModel) -> Seq<u8> {
    match m {
        MessageModel::ConnectRequest { client_id, public_key } => seq![0u8] + str_encoding(
            client_id,
        ) + public_key,
        MessageModel::ConnectResponse { relay_id, public_key, success, message } => seq![1u8]
            + str_encoding(relay_id) + public_key + seq![bool_byte(success)] + opt_str_encoding(
            message,
        ),
        MessageModel::CircuitCreate { circuit_id, public_key } => seq![2u8] + spec_u64_to_le_bytes(
            circuit_id,
        ) + public_key,
        MessageModel::CircuitCreated { circuit_id, success, message } => seq![3u8]
            + spec_u64_to_le_bytes(circuit_id) + seq![bool_byte(success)] + opt_str_encoding(
            message,
        ),
        MessageModel::Data { circuit_id, payload } => seq![4u8] + spec_u64_to_le_bytes(circuit_id)
            + blob_encoding(payload),
        MessageModel::Disconnect => seq![5u8],
    }
}

/// A message model that an executable message can denote: keys are 32 bytes
/// and variable-length fields fit their 64-bit length prefixes.
pub open spec fn wf_message(m: MessageModel) -> bool {
    match m {
        MessageModel::ConnectRequest { client_id, public_key } => public_key.len() == 32
            && encode_utf8(client_id).len() <= u64::MAX,
        MessageModel::ConnectResponse { relay_id, public_key, success, message } => public_key.len()
            == 32 && encode_utf8(relay_id).len() <= u64::MAX && (m matches
        MessageModel::ConnectResponse { message: Some(s), .. } ==> encode_utf8(s).len()
            <= u64::MAX),
        MessageModel::CircuitCreate { circuit_id, public_key } => public_key.len() == 32,
        MessageModel::CircuitCreated { circuit_id, success, message } => (match message {
            Some(s) => encode_utf8(s).len() <= u64::MAX,
            None => true,
        }),
        MessageModel::Data { circuit_id, payload } => payload.len() <= u64::MAX,
        MessageModel::Disconnect => true,
    }
}

fn push_u64(out: &mut Vec<u8>, x: u64)
    ensures
        final(out)@ == old(out)@ + spec_u64_to_le_bytes(x),
{
    let bytes = u64_to_le_bytes(x);
    out.extend_from_slice(bytes.as_slice());
    proof {
        assert(out@ =~= old(out)@ + spec_u64_to_le_bytes(x));
    }
}

fn push_blob(out: &mut Vec<u8>, b: &[u8])
    ensures
        final(out)@ == old(out)@ + blob_encoding(b@),
        b@.len() <= u64::MAX,
{
    push_u64(out, b.len() as u64);
    out.extend_from_slice(b);
    proof {
        assert(out@ =~= old(out)@ + blob_encoding(b@));
    }
}

fn push_str(out: &mut Vec<u8>, s: &str)
    ensures
        final(out)@ == old(out)@ + str_encoding(s@),
        encode_utf8(s@).len() <= u64::MAX,
{
    push_blob(out, s.as_bytes());
}

fn push_bool(out: &mut Vec<u8>, b: bool)
    ensures
        final(out)@ == old(out)@ + seq![bool_byte(b)],
{
    if b {
        out.push(1u8);
    } else {
        out.push(0u8);
    }
    proof {
        assert(out@ =~= old(out)@ + seq![bool_byte(b)]);
    }
}

fn push_opt_str(out: &mut Vec<u8>, s: &Option<String>)
    ensures
        final(out)@ == old(out)@ + opt_str_encoding(match s {
            Some(x) => Some(x@),
            None => None,
        }),
        s matches Some(x) ==> encode_utf8(x@).len() <= u64::MAX,
{
    match s {
        Some(x) => {
            out.push(1u8);
            push_str(out, x.as_str());
            proof {
                assert(out@ =~= old(out)@ + opt_str_encoding(Some(x@)));
            }
        },
        None => {
            out.push(0u8);
            proof {
                assert(out@ =~= old(out)@ + opt_str_encoding(None::<Seq<char>>));
            }
        },
    }
}

/// What reading a 64-bit little-endian integer at `pos` yields: the value
/// and the position after it, or nothing if fewer than eight bytes remain.
pub open spec fn parse_u64_at(b: Seq<u8>, pos: int) -> Option<(u64, int)> {
    if 0 <= pos && pos + 8 <= b.len() {
        Some((spec_u64_from_le_bytes(b.subrange(pos, pos + 8)), pos + 8))
    } else {
        None
    }
}

/// What reading a length-prefixed byte field at `pos` yields.
pub open spec fn parse_blob_at(b: Seq<u8>, pos: int) -> Option<(Seq<u8>, int)> {
    match parse_u64_at(b, pos) {
        Some((n, p)) => if p + n <= b.len() {
            Some((b.subrange(p, p + n), p + n))
        } else {
            None
        },
        None => None,
    }
}

/// What reading a string field at `pos` yields: the decoded characters of a
/// length-prefixed field that holds valid UTF-8.
pub open spec fn parse_str_at(b: Seq<u8>, pos: int) -> Option<(Seq<char>, int)> {
    match parse_blob_at(b, pos) {
        Some((bytes, p)) => if valid_utf8(bytes) {
            Some((decode_utf8(bytes), p))
        } else {
            None
        },
        None => None,
    }
}

/// What reading a 32-byte key at `pos` yields.
pub open spec fn parse_key_at(b: Seq<u8>, pos: int) -> Option<(Seq<u8>, int)> {
    if 0 <= pos && pos + 32 <= b.len() {
        Some((b.subrange(pos, pos + 32), pos + 32))
    } else {
        None
    }
}

/// What reading a boolean byte at `pos` yields; only 0 and 1 are accepted.
pub open spec fn parse_bool_at(b: Seq<u8>, pos: int) -> Option<(bool, int)> {
    if 0 <= pos && pos < b.len() && (b[pos] == 0 || b[pos] == 1) {
        Some((b[pos] == 1, pos + 1))
    } else {
        None
    }
}

/// What reading an optional string at `pos` yields: a presence byte, then a
/// string field when present.
pub open spec fn parse_opt_str_at(b: Seq<u8>, pos: int) -> Option<(Option<Seq<char>>, int)> {
    if 0 <= pos && pos < b.len() {
        if b[pos] == 0 {
            Some((None, pos + 1))
        } else if b[pos] == 1 {
            match parse_str_at(b, pos + 1) {
                Some((s, p)) => Some((Some(s), p)),
                None => None,
            }
        } else {
            None
        }
    } else {
        None
    }
}

/// What parsing a whole message yields.  The tag picks the variant, the
/// fields follow in order, and every byte must be consumed.
pub open spec fn parse_message(b: Seq<u8>) -> Option<MessageModel> {
    if b.len() < 1 {
        None
    } else if b[0] == 0 {
        match parse_str_at(b, 1) {
            Some((client_id, p)) => match parse_key_at(b, p) {
                Some((public_key, p2)) => if p2 == b.len() {
                    Some(MessageModel::ConnectRequest { client_id, public_key })
                } else {
                    None
                },
                None => None,
            },
            None => None,
        }
    } else if b[0] == 1 {
        match parse_str_at(b, 1) {
            Some((relay_id, p)) => match parse_key_at(b, p) {
                Some((public_key, p2)) => match parse_bool_at(b, p2) {
                    Some((success, p3)) => match parse_opt_str_at(b, p3) {
                        Some((message, p4)) => if p4 == b.len() {
                            Some(
                                MessageModel::ConnectResponse {
                                    relay_id,
                                    public_key,
                                    success,
                                    message,
                                },
                            )
                        } else {
                            None
                        },
                        None => None,
                    },
                    None => None,
                },
                None => None,
            },
            None => None,
        }
    } else if b[0] == 2 {
        match parse_u64_at(b, 1) {
            Some((circuit_id, p)) => match parse_key_at(b, p) {
                Some((public_key, p2)) => if p2 == b.len() {
                    Some(MessageModel::CircuitCreate { circuit_id, public_key })
                } else {
                    None
                },
                None => None,
            },
            None => None,
        }
    } else if b[0] == 3 {
        match parse_u64_at(b, 1) {
            Some((circuit_id, p)) => match parse_bool_at(b, p) {
                Some((success, p2)) => match parse_opt_str_at(b, p2) {
                    Some((message, p3)) => if p3 == b.len() {
                        Some(MessageModel::CircuitCreated { circuit_id, success, message })
                    } else {
                        None
                    },
                    None => None,
                },
                None => None,
            },
            None => None,
        }
    } else if b[0] == 4 {
        match parse_u64_at(b, 1) {
            Some((circuit_id, p)) => match parse_blob_at(b, p) {
                Some((payload, p2)) => if p2 == b.len() {
                    Some(MessageModel::Data { circuit_id, payload })
                } else {
                    None
                },
                None => None,
            },
            None => None,
        }
    } else if b[0] == 5 {
        if b.len() == 1 {
            Some(MessageModel::Disconnect)
        } else {
            None
        }
    } else {
        None
    }
}

/// The message a frame carries for the holder of `key`: what decrypting
/// and then parsing it yields, if both succeed.
pub open spec fn frame_message(frame: Seq<u8>, key: Seq<u8>) -> Option<MessageModel> {
    match crate::crypto::spec_decrypt(frame, key) {
        Ok(p) => parse_message(p),
        Err(_) => None,
    }
}

/// Relies on `String::from_utf8` (std): succeeds exactly when the bytes are
/// valid UTF-8, and then returns the string those bytes encode.
#[verifier::external_body]
fn string_from_utf8(bytes: Vec<u8>) -> (r: Option<String>)
    ensures
        r matches Some(s) ==> s@ == decode_utf8(bytes@),
        r is Some <==> valid_utf8(bytes@),
{
    String::from_utf8(bytes).ok()
}

fn read_u64(b: &[u8], pos: usize) -> (r: Option<(u64, usize)>)
    ensures
        r matches Some((x, p)) ==> parse_u64_at(b@, pos as int) == Some((x, p as int)),
        r is Some <==> parse_u64_at(b@, pos as int) is Some,
{
    if pos <= b.len() && b.len() - pos >= 8 {
        let sub = vstd::slice::slice_subrange(b, pos, pos + 8);
        Some((u64_from_le_bytes(sub), pos + 8))
    } else {
        None
    }
}

fn read_blob(b: &[u8], pos: usize) -> (r: Option<(Vec<u8>, usize)>)
    ensures
        r matches Some((v, p)) ==> parse_blob_at(b@, pos as int) == Some((v@, p as int)),
        r is Some <==> parse_blob_at(b@, pos as int) is Some,
{
    match read_u64(b, pos) {
        Some((n, p)) => {
            if n <= (b.len() - p) as u64 {
                let end: usize = p + (n as usize);
                let v = vstd::slice::slice_to_vec(vstd::slice::slice_subrange(b, p, end));
                Some((v, end))
            } else {
                None
            }
        },
        None => None,
    }
}

fn read_str(b: &[u8], pos: usize) -> (r: Option<(String, usize)>)
    ensures
        r matches Some((s, p)) ==> parse_str_at(b@, pos as int) == Some((s@, p as int)),
        r is Some <==> parse_str_at(b@, pos as int) is Some,
{
    match read_blob(b, pos) {
        Some((v, p)) => match string_from_utf8(v) {
            Some(s) => Some((s, p)),
            None => None,
        },
        None => None,
    }
}

fn read_key(b: &[u8], pos: usize) -> (r: Option<([u8; 32], usize)>)
    ensures
        r matches Some((k, p)) ==> parse_key_at(b@, pos as int) == Some((k@, p as int)),
        r is Some <==> parse_key_at(b@, pos as int) is Some,
{
    if pos <= b.len() && b.len() - pos >= 32 {
        let mut k = [0u8; 32];
        let mut i: usize = 0;
        while i < 32
            invariant
                i <= 32,
                pos + 32 <= b@.len(),
                b@.len() <= usize::MAX,
                forall|j: int| 0 <= j < i ==> k@[j] == b@[pos + j],
            decreases 32 - i,
        {
            k[i] = b[pos + i];
            i = i + 1;
        }
        proof {
            assert(k@ =~= b@.subrange(pos as int, pos as int + 32));
        }
        Some((k, pos + 32))
    } else {
        None
    }
}

fn read_bool(b: &[u8], pos: usize) -> (r: Option<(bool, usize)>)
    ensures
        r matches Some((x, p)) ==> parse_bool_at(b@, pos as int) == Some((x, p as int)),
        r is Some <==> parse_bool_at(b@, pos as int) is Some,
{
    if pos < b.len() {
        let byte = b[pos];
        if byte == 0 {
            Some((false, pos + 1))
        } else if byte == 1 {
            Some((true, pos + 1))
        } else {
            None
        }
    } else {
        None
    }
}

fn read_opt_str(b: &[u8], pos: usize) -> (r: Option<(Option<String>, usize)>)
    ensures
        r matches Some((s, p)) ==> parse_opt_str_at(b@, pos as int) == Some(
            (
                match s {
                    Some(x) => Some(x@),
                    None => None,
                },
                p as int,
            ),
        ),
        r is Some <==> parse_opt_str_at(b@, pos as int) is Some,
{
    if pos < b.len() {
        let byte = b[pos];
        if byte == 0 {
            Some((None, pos + 1))
        } else if byte == 1 {
            match read_str(b, pos + 1) {
                Some((s, p)) => Some((Some(s), p)),
                None => None,
            }
        } else {
            None
        }
    } else {
        None
    }
}

/// Decodes one message from bytes: succeeds exactly on the byte strings
/// that parse as a message, and then returns that message.
pub fn decode(bytes: &[u8]) -> (r: Result<PhantomBandMessage, SerializationError>)
    ensures
        r matches Ok(m) ==> parse_message(bytes@) == Some(m@),
        r is Ok <==> parse_message(bytes@) is Some,
{
    if bytes.len() < 1 {
        return Err(SerializationError);
    }
    let tag: u8 = bytes[0];
    if tag == 0 {
        match read_str(bytes, 1) {
            Some((client_id, p)) => match read_key(bytes, p) {
                Some((public_key, p2)) => {
                    if p2 == bytes.len() {
                        Ok(PhantomBandMessage::ConnectRequest { client_id, public_key })
                    } else {
                        Err(SerializationError)
                    }
                },
                None => Err(SerializationError),
            },
            None => Err(SerializationError),
        }
    } else if tag == 1 {
        match read_str(bytes, 1) {
            Some((relay_id, p)) => match read_key(bytes, p) {
                Some((public_key, p2)) => match read_bool(bytes, p2) {
                    Some((success, p3)) => match read_opt_str(bytes, p3) {
                        Some((message, p4)) => {
                            if p4 == bytes.len() {
                                Ok(
                                    PhantomBandMessage::ConnectResponse {
                                        relay_id,
                                        public_key,
                                        success,
                                        message,
                                    },
                                )
                            } else {
                                Err(SerializationError)
                            }
                        },
                        None => Err(SerializationError),
                    },
                    None => Err(SerializationError),
                },
                None => Err(SerializationError),
            },
            None => Err(SerializationError),
        }
    } else if tag == 2 {
        match read_u64(bytes, 1) {
            Some((circuit_id, p)) => match read_key(bytes, p) {
                Some((public_key, p2)) => {
                    if p2 == bytes.len() {
                        Ok(PhantomBandMessage::CircuitCreate { circuit_id, public_key })
                    } else {
                        Err(SerializationError)
                    }
                },
                None => Err(SerializationError),
            },
            None => Err(SerializationError),
        }
    } else if tag == 3 {
        match read_u64(bytes, 1) {
            Some((circuit_id, p)) => match read_bool(bytes, p) {
                Some((success, p2)) => match read_opt_str(bytes, p2) {
                    Some((message, p3)) => {
                        if p3 == bytes.len() {
                            Ok(PhantomBandMessage::CircuitCreated { circuit_id, success, message })
                        } else {
                            Err(SerializationError)
                        }
                    },
                    None => Err(SerializationError),
                },
                None => Err(SerializationError),
            },
            None => Err(SerializationError),
        }
    } else if tag == 4 {
        match read_u64(bytes, 1) {
            Some((circuit_id, p)) => match read_blob(bytes, p) {
                Some((payload, p2)) => {
                    if p2 == bytes.len() {
                        Ok(PhantomBandMessage::Data { circuit_id, payload })
                    } else {
                        Err(SerializationError)
                    }
                },
                None => Err(SerializationError),
            },
            None => Err(SerializationError),
        }
    } else if tag == 5 {
        if bytes.len() == 1 {
            Ok(PhantomBandMessage::Disconnect)
        } else {
            Err(SerializationError)
        }
    } else {
        Err(SerializationError)
    }
}

/// Encodes one message to bytes.  The result is exactly `encoding(m@)`.
pub fn encode(m: &PhantomBandMessage) -> (r: Vec<u8>)
    ensures
        r@ == encoding(m@),
        wf_message(m@),
{
    let mut out: Vec<u8> = Vec::new();
    match m {
        PhantomBandMessage::ConnectRequest { client_id, public_key } => {
            out.push(0u8);
            push_str(&mut out, client_id.as_str());
            out.extend_from_slice(public_key.as_slice());
            proof {
                assert(out@ =~= encoding(m@));
            }
        },
        PhantomBandMessage::ConnectResponse { relay_id, public_key, success, message } => {
            out.push(1u8);
            push_str(&mut out, relay_id.as_str());
            out.extend_from_slice(public_key.as_slice());
            push_bool(&mut out, *success);
            push_opt_str(&mut out, message);
            proof {
                assert(out@ =~= encoding(m@));
            }
        },
        PhantomBandMessage::CircuitCreate { circuit_id, public_key } => {
            out.push(2u8);
            push_u64(&mut out, *circuit_id);
            out.extend_from_slice(public_key.as_slice());
            proof {
                assert(out@ =~= encoding(m@));
            }
        },
        PhantomBandMessage::CircuitCreated { circuit_id, success, message } => {
            out.push(3u8);
            push_u64(&mut out, *circuit_id);
            push_bool(&mut out, *success);
            push_opt_str(&mut out, message);
            proof {
                assert(out@ =~= encoding(m@));
            }
        },
        PhantomBandMessage::Data { circuit_id, payload } => {
            out.push(4u8);
            push_u64(&mut out, *circuit_id);
            push_blob(&mut out, payload.as_slice());
            proof {
                assert(out@ =~= encoding(m@));
            }
        },
        PhantomBandMessage::Disconnect => {
            out.push(5u8);
            proof {
                assert(out@ =~= encoding(m@));
            }
        },
    }
    out
}

/// Encodes a message and encrypts it into one frame under `key`.  Refuses
/// only a message whose encoding is too large for one frame; the frame
/// decrypts under the same key back to exactly the message.
pub fn encrypt_message(m: &PhantomBandMessage, key: &[u8; 32]) -> (r: Option<Vec<u8>>)
    ensures
        r matches Some(f) ==> frame_message(f@, key@) == Some(m@),
        r is Some <==> encoding(m@).len() <= crate::crypto::MAX_PLAINTEXT_LEN,
{
    let plain = encode(m);
    proof {
        lemma_parse_encoding(m@);
    }
    if plain.len() <= crate::crypto::MAX_PLAINTEXT_LEN {
        Some(crate::crypto::encrypt(plain.as_slice(), key))
    } else {
        None
    }
}

proof fn lemma_parse_u64_field(b: Seq<u8>, pos: int, x: u64)
    requires
        0 <= pos,
        pos + 8 <= b.len(),
        b.subrange(pos, pos + 8) == spec_u64_to_le_bytes(x),
    ensures
        parse_u64_at(b, pos) == Some((x, pos + 8)),
{
    vstd::bytes::lemma_auto_spec_u64_to_from_le_bytes();
}

proof fn lemma_parse_blob_field(b: Seq<u8>, pos: int, blob: Seq<u8>)
    requires
        0 <= pos,
        blob.len() <= u64::MAX,
        pos + 8 + blob.len() <= b.len(),
        b.subrange(pos, pos + 8 + blob.len()) == blob_encoding(blob),
    ensures
        parse_blob_at(b, pos) == Some((blob, pos + 8 + blob.len())),
{
    vstd::bytes::lemma_auto_spec_u64_to_from_le_bytes();
    let enc = blob_encoding(blob);
    let n = blob.len() as u64;
    assert(spec_u64_to_le_bytes(n).len() == 8);
    assert(b.subrange(pos, pos + 8) =~= enc.subrange(0, 8));
    assert(enc.subrange(0, 8) =~= spec_u64_to_le_bytes(n));
    lemma_parse_u64_field(b, pos, n);
    assert(b.subrange(pos + 8, pos + 8 + blob.len()) =~= enc.subrange(8, enc.len() as int));
    assert(enc.subrange(8, enc.len() as int) =~= blob);
}

proof fn lemma_parse_str_field(b: Seq<u8>, pos: int, s: Seq<char>)
    requires
        0 <= pos,
        encode_utf8(s).len() <= u64::MAX,
        pos + 8 + encode_utf8(s).len() <= b.len(),
        b.subrange(pos, pos + 8 + encode_utf8(s).len()) == str_encoding(s),
    ensures
        parse_str_at(b, pos) == Some((s, pos + 8 + encode_utf8(s).len())),
{
    lemma_parse_blob_field(b, pos, encode_utf8(s));
    vstd::utf8::encode_utf8_valid_utf8(s);
    vstd::utf8::encode_utf8_decode_utf8(s);
}

proof fn lemma_parse_key_field(b: Seq<u8>, pos: int, key: Seq<u8>)
    requires
        0 <= pos,
        key.len() == 32,
        pos + 32 <= b.len(),
        b.subrange(pos, pos + 32) == key,
    ensures
        parse_key_at(b, pos) == Some((key, pos + 32)),
{
}

proof fn lemma_parse_bool_field(b: Seq<u8>, pos: int, v: bool)
    requires
        0 <= pos,
        pos < b.len(),
        b[pos] == bool_byte(v),
    ensures
        parse_bool_at(b, pos) == Some((v, pos + 1)),
{
}

proof fn lemma_parse_opt_str_field(b: Seq<u8>, pos: int, m: Option<Seq<char>>)
    requires
        0 <= pos,
        pos + opt_str_encoding(m).len() <= b.len(),
        b.subrange(pos, pos + opt_str_encoding(m).len()) == opt_str_encoding(m),
        m matches Some(s) ==> encode_utf8(s).len() <= u64::MAX,
    ensures
        parse_opt_str_at(b, pos) == Some((m, pos + opt_str_encoding(m).len())),
{
    vstd::bytes::lemma_auto_spec_u64_to_from_le_bytes();
    let enc = opt_str_encoding(m);
    match m {
        Some(s) => {
            let lu = encode_utf8(s).len() as int;
            assert(enc.len() == 1 + 8 + lu);
            assert(b[pos] == enc[0]);
            assert(enc[0] == 1u8);
            assert(b.subrange(pos + 1, pos + 1 + 8 + lu) =~= enc.subrange(1, enc.len() as int));
            assert(enc.subrange(1, enc.len() as int) =~= str_encoding(s));
            lemma_parse_str_field(b, pos + 1, s);
        },
        None => {
            assert(b[pos] == enc[0]);
            assert(enc[0] == 0u8);
        },
    }
}

/// Round trip of the codec: parsing the encoding of any well-formed message
/// gives that message back.
#[verifier::rlimit(100)]
pub proof fn lemma_parse_encoding(m: MessageModel)
    requires
        wf_message(m),
    ensures
        parse_message(encoding(m)) == Some(m),
{
    vstd::bytes::lemma_auto_spec_u64_to_from_le_bytes();
    let b = encoding(m);
    match m {
        MessageModel::ConnectRequest { client_id, public_key } => {
            let lu = encode_utf8(client_id).len() as int;
            let ls: int = 8 + lu;
            assert(str_encoding(client_id).len() == ls);
            assert(b[0] == 0u8);
            assert(b.subrange(1, 1 + ls) =~= str_encoding(client_id));
            lemma_parse_str_field(b, 1, client_id);
            assert(b.subrange(1 + ls, 1 + ls + 32) =~= public_key);
            lemma_parse_key_field(b, 1 + ls, public_key);
        },
        MessageModel::ConnectResponse { relay_id, public_key, success, message } => {
            let lu = encode_utf8(relay_id).len() as int;
            let ls: int = 8 + lu;
            let lo = opt_str_encoding(message).len() as int;
            assert(str_encoding(relay_id).len() == ls);
            assert(b[0] == 1u8);
            assert(b.subrange(1, 1 + ls) =~= str_encoding(relay_id));
            lemma_parse_str_field(b, 1, relay_id);
            assert(b.subrange(1 + ls, 1 + ls + 32) =~= public_key);
            lemma_parse_key_field(b, 1 + ls, public_key);
            assert(b[1 + ls + 32] == bool_byte(success));
            lemma_parse_bool_field(b, 1 + ls + 32, success);
            assert(b.subrange(1 + ls + 33, 1 + ls + 33 + lo) =~= opt_str_encoding(message));
            lemma_parse_opt_str_field(b, 1 + ls + 33, message);
        },
        MessageModel::CircuitCreate { circuit_id, public_key } => {
            assert(b[0] == 2u8);
            vstd::bytes::lemma_auto_spec_u64_to_from_le_bytes();
            assert(b.subrange(1, 9) =~= spec_u64_to_le_bytes(circuit_id));
            lemma_parse_u64_field(b, 1, circuit_id);
            assert(b.subrange(9, 41) =~= public_key);
            lemma_parse_key_field(b, 9, public_key);
        },
        MessageModel::CircuitCreated { circuit_id, success, message } => {
            let lo = opt_str_encoding(message).len() as int;
            assert(b[0] == 3u8);
            vstd::bytes::lemma_auto_spec_u64_to_from_le_bytes();
            assert(b.subrange(1, 9) =~= spec_u64_to_le_bytes(circuit_id));
            lemma_parse_u64_field(b, 1, circuit_id);
            assert(b[9] == bool_byte(success));
            lemma_parse_bool_field(b, 9, success);
            assert(b.subrange(10, 10 + lo) =~= opt_str_encoding(message));
            lemma_parse_opt_str_field(b, 10, message);
        },
        MessageModel::Data { circuit_id, payload } => {
            let lp = payload.len() as int;
            assert(b[0] == 4u8);
            vstd::bytes::lemma_auto_spec_u64_to_from_le_bytes();
            assert(b.subrange(1, 9) =~= spec_u64_to_le_bytes(circuit_id));
            lemma_parse_u64_field(b, 1, circuit_id);
            assert(b.subrange(9, 9 + 8 + lp) =~= blob_encoding(payload));
            lemma_parse_blob_field(b, 9, payload);
        },
        MessageModel::Disconnect => {
            assert(b[0] == 5u8);
            assert(b.len() == 1);
        },
    }
}

} // verus!
