//! Relay side of the protocol: the shared session registry mapping client
//! identifiers to their keys, and the per-connection message handling.
//! Accepting connections and moving bytes is the caller's business.

use vstd::prelude::*;
use vstd::utf8::encode_utf8;
use crate::codec::{decode, frame_message, parse_message};
use crate::crypto::{decrypt, spec_decrypt, CryptoError, MAX_PLAINTEXT_LEN};
use crate::protocol::{MessageModel, PhantomBandMessage};

verus! {

/// The relay's session registry: a mapping from client identifier to that
/// client's key.  An insert for a registered identifier overwrites its key;
/// at most one entry exists per identifier.
pub struct Registry {
    entries: Vec<(String, [u8; 32])>,
}

/// The mapping a sequence of entries denotes, later entries winning.
pub closed spec fn map_of(entries: Seq<(String, [u8; 32])>) -> Map<Seq<char>, Seq<u8>>
    decreases entries.len(),
{
    if entries.len() == 0 {
        Map::empty()
    } else {
        map_of(entries.drop_last()).insert(entries.last().0@, entries.last().1@)
    }
}

/// No two entries share an identifier.
pub closed spec fn distinct_keys(entries: Seq<(String, [u8; 32])>) -> bool {
    forall|i: int, j: int|
        0 <= i < j < entries.len() ==> entries[i].0@ != entries[j].0@
}

proof fn lemma_map_of_absent(entries: Seq<(String, [u8; 32])>, k: Seq<char>)
    requires
        forall|i: int| 0 <= i < entries.len() ==> entries[i].0@ != k,
    ensures
        !map_of(entries).contains_key(k),
    decreases entries.len(),
{
    if entries.len() > 0 {
        lemma_map_of_absent(entries.drop_last(), k);
    }
}

proof fn lemma_map_of_contains(entries: Seq<(String, [u8; 32])>, k: Seq<char>)
    requires
        distinct_keys(entries),
    ensures
        map_of(entries).contains_key(k) <==> (exists|i: int|
            0 <= i < entries.len() && entries[i].0@ == k),
        forall|i: int|
            0 <= i < entries.len() && entries[i].0@ == k ==> map_of(entries)[k] == entries[i].1@,
    decreases entries.len(),
{
    if entries.len() > 0 {
        let dl = entries.drop_last();
        let last: int = entries.len() - 1;
        assert(forall|i: int| 0 <= i < dl.len() ==> dl[i] == entries[i]);
        assert(distinct_keys(dl));
        lemma_map_of_contains(dl, k);
        assert(entries[last] == entries.last());
        if entries.last().0@ == k {
            assert(entries[last].0@ == k);
            assert forall|i: int|
                0 <= i < entries.len() && entries[i].0@ == k implies map_of(entries)[k]
                == entries[i].1@ by {
                if i < last {
                    assert(entries[i].0@ != entries[last].0@);
                }
            }
        } else {
            assert(map_of(entries)[k] == map_of(dl)[k]);
            assert(map_of(entries).contains_key(k) <==> map_of(dl).contains_key(k));
            if map_of(dl).contains_key(k) {
                let i = choose|i: int| 0 <= i < dl.len() && dl[i].0@ == k;
                assert(entries[i].0@ == k);
            }
            if exists|i: int| 0 <= i < entries.len() && entries[i].0@ == k {
                let i = choose|i: int| 0 <= i < entries.len() && entries[i].0@ == k;
                assert(i != last);
                assert(dl[i].0@ == k);
            }
            assert forall|i: int|
                0 <= i < entries.len() && entries[i].0@ == k implies map_of(entries)[k]
                == entries[i].1@ by {
                assert(i != last);
                assert(dl[i] == entries[i]);
            }
        }
    }
}

proof fn lemma_map_of_remove_at(entries: Seq<(String, [u8; 32])>, i: int)
    requires
        distinct_keys(entries),
        0 <= i < entries.len(),
    ensures
        map_of(entries.remove(i)) == map_of(entries).remove(entries[i].0@),
    decreases entries.len(),
{
    let k = entries[i].0@;
    if i == entries.len() - 1 {
        assert(entries.remove(i) =~= entries.drop_last());
        assert(forall|j: int| 0 <= j < entries.len() - 1 ==> entries[j].0@ != k);
        lemma_map_of_absent(entries.drop_last(), k);
        assert(map_of(entries.drop_last()) =~= map_of(entries).remove(k));
    } else {
        assert(distinct_keys(entries.drop_last())) by {
            assert(forall|a: int, b: int|
                0 <= a < b < entries.drop_last().len() ==> entries.drop_last()[a]
                    == entries[a] && entries.drop_last()[b] == entries[b]);
        }
        lemma_map_of_remove_at(entries.drop_last(), i);
        assert(entries.remove(i).drop_last() =~= entries.drop_last().remove(i));
        assert(entries.remove(i).last() == entries.last());
        assert(map_of(entries.remove(i)) == map_of(entries.drop_last().remove(i)).insert(
            entries.last().0@,
            entries.last().1@,
        ));
        assert(entries.last().0@ != k);
        assert(map_of(entries.drop_last()).remove(k).insert(entries.last().0@, entries.last().1@)
            =~= map_of(entries.drop_last()).insert(
            entries.last().0@,
            entries.last().1@,
        ).remove(k));
    }
}

impl View for Registry {
    type V = Map<Seq<char>, Seq<u8>>;

    closed spec fn view(&self) -> Map<Seq<char>, Seq<u8>> {
        map_of(self.entries@)
    }
}

impl Registry {
    /// The registry's internal invariant: one entry per identifier.
    pub closed spec fn wf(self) -> bool {
        distinct_keys(self.entries@)
    }

    /// An empty registry.
    pub fn new() -> (r: Registry)
        ensures
            r.wf(),
            r@ == Map::<Seq<char>, Seq<u8>>::empty(),
    {
        Registry { entries: Vec::new() }
    }

    fn find(&self, id: &String) -> (r: Option<usize>)
        ensures
            r matches Some(i) ==> i < self.entries@.len() && self.entries@[i as int].0@ == id@,
            r is Some <==> (exists|i: int|
                0 <= i < self.entries@.len() && self.entries@[i].0@ == id@),
    {
        let mut i: usize = 0;
        while i < self.entries.len()
            invariant
                i <= self.entries@.len(),
                forall|j: int| 0 <= j < i ==> self.entries@[j].0@ != id@,
            decreases self.entries@.len() - i,
        {
            if self.entries[i].0 == *id {
                return Some(i);
            }
            i = i + 1;
        }
        None
    }

    /// Looks an identifier up: returns its key exactly when it is
    /// registered.
    pub fn get(&self, id: &String) -> (r: Option<[u8; 32]>)
        requires
            self.wf(),
        ensures
            r matches Some(k) ==> self@.contains_key(id@) && self@[id@] == k@,
            r is Some <==> self@.contains_key(id@),
    {
        proof {
            lemma_map_of_contains(self.entries@, id@);
        }
        match self.find(id) {
            Some(i) => Some(self.entries[i].1),
            None => None,
        }
    }

    /// Registers an identifier, overwriting the key of one already
    /// registered.
    pub fn insert(&mut self, id: String, key: [u8; 32])
        requires
            old(self).wf(),
        ensures
            final(self).wf(),
            final(self)@ == old(self)@.insert(id@, key@),
    {
        proof {
            lemma_map_of_contains(self.entries@, id@);
        }
        match self.find(&id) {
            Some(i) => {
                proof {
                    lemma_map_of_remove_at(self.entries@, i as int);
                }
                let ghost before = self.entries@;
                self.entries.remove(i);
                proof {
                    assert(distinct_keys(self.entries@)) by {
                        assert(forall|a: int, b: int|
                            0 <= a < b < self.entries@.len() ==> (
                            if a < i {
                                self.entries@[a] == before[a]
                            } else {
                                self.entries@[a] == before[a + 1]
                            } && if b < i {
                                self.entries@[b] == before[b]
                            } else {
                                self.entries@[b] == before[b + 1]
                            }));
                    }
                    assert(forall|j: int|
                        0 <= j < self.entries@.len() ==> self.entries@[j].0@ != id@);
                }
                self.entries.push((id, key));
                proof {
                    assert(distinct_keys(self.entries@)) by {
                        assert(forall|j: int|
                            0 <= j < self.entries@.len() - 1 ==> self.entries@[j]
                                == self.entries@.drop_last()[j]);
                    }
                    assert(self.entries@.drop_last() =~= old(self).entries@.remove(i as int));
                    assert(final(self)@ =~= old(self)@.insert(id@, key@));
                }
            },
            None => {
                self.entries.push((id, key));
                proof {
                    assert(forall|j: int|
                        0 <= j < self.entries@.len() - 1 ==> self.entries@[j]
                            == old(self).entries@[j]);
                    assert(self.entries@.drop_last() =~= old(self).entries@);
                }
            },
        }
    }

    /// Deregisters an identifier; removing one not registered changes
    /// nothing.
    pub fn remove(&mut self, id: &String)
        requires
            old(self).wf(),
        ensures
            final(self).wf(),
            final(self)@ == old(self)@.remove(id@),
            !final(self)@.contains_key(id@),
    {
        proof {
            lemma_map_of_contains(self.entries@, id@);
        }
        match self.find(id) {
            Some(i) => {
                proof {
                    lemma_map_of_remove_at(self.entries@, i as int);
                }
                let ghost before = self.entries@;
                self.entries.remove(i);
                proof {
                    assert(self.entries@ =~= before.remove(i as int));
                    assert(distinct_keys(self.entries@)) by {
                        assert(forall|a: int, b: int|
                            0 <= a < b < self.entries@.len() ==> (
                            if a < i {
                                self.entries@[a] == before[a]
                            } else {
                                self.entries@[a] == before[a + 1]
                            } && if b < i {
                                self.entries@[b] == before[b]
                            } else {
                                self.entries@[b] == before[b + 1]
                            }));
                    }
                    lemma_map_of_contains(self.entries@, id@);
                }
            },
            None => {
                proof {
                    assert(forall|j: int|
                        0 <= j < self.entries@.len() ==> self.entries@[j].0@ != id@);
                    lemma_map_of_absent(self.entries@, id@);
                    assert(final(self)@ =~= old(self)@.remove(id@));
                }
            },
        }
    }
}

/// Longest UTF-8 encoding of a relay identifier a node accepts; keeps
/// every reply far below the frame size limit.
pub const MAX_RELAY_ID_LEN: usize = 65535;

/// Why the relay gave a connection up.
#[derive(Clone, Copy, Debug, PartialEq, Eq, Structural)]
pub enum RelayError {
    /// The connection's registered identifier is no longer in the registry.
    UnknownClient,
    /// The received frame failed decryption.
    Crypto(CryptoError),
    /// The decrypted plaintext did not parse as a message.
    Serialization,
    /// A well-formed message arrived that a client never sends.
    Protocol,
    /// A data message named a circuit this connection never created.
    UnauthorizedCircuit,
    /// The reply would not fit in one frame.
    Oversize,
}

/// What the relay does with one received frame.
pub enum RelayOutcome {
    /// Send this frame back to the peer and keep the connection.
    Reply(Vec<u8>),
    /// The peer disconnected in good order: close the connection quietly.
    Disconnected,
    /// Abandon the connection.
    Abort(RelayError),
}

/// Per-connection relay state: which client registered over it, and which
/// circuits it created.
pub struct ConnState {
    pub client_id: Option<String>,
    pub circuits: Vec<u64>,
}

impl ConnState {
    /// The state of a freshly accepted connection.
    pub fn new() -> (r: ConnState)
        ensures
            r.client_id is None,
            r.circuits@ == Seq::<u64>::empty(),
    {
        ConnState { client_id: None, circuits: Vec::new() }
    }
}

/// The relay: its identifier, its key, and the shared session registry.
pub struct RelayNode {
    pub relay_id: String,
    pub key: [u8; 32],
    pub registry: Registry,
}

/// The key the relay decrypts a connection's next frame with: the
/// registered key of the connection's client, or the relay's own key while
/// no client registered; none if the registration has vanished.
pub open spec fn conn_key(node: RelayNode, conn: ConnState) -> Option<Seq<u8>> {
    match conn.client_id {
        Some(id) => if node.registry@.contains_key(id@) {
            Some(node.registry@[id@])
        } else {
            None
        },
        None => Some(node.key@),
    }
}

/// The relay's answer to a connect request.
pub open spec fn connect_response_model(node: RelayNode) -> MessageModel {
    MessageModel::ConnectResponse {
        relay_id: node.relay_id@,
        public_key: node.key@,
        success: true,
        message: Some("Connection established."@),
    }
}

/// The relay's answer to a circuit-create message.
pub open spec fn circuit_created_model(circuit_id: u64) -> MessageModel {
    MessageModel::CircuitCreated {
        circuit_id,
        success: true,
        message: Some("Circuit created successfully."@),
    }
}

/// How one dispatched message changes the relay and the connection, and
/// which outcome it produces.
pub open spec fn dispatched(
    pre: RelayNode,
    post: RelayNode,
    cpre: ConnState,
    cpost: ConnState,
    m: MessageModel,
    r: RelayOutcome,
) -> bool {
    match m {
        MessageModel::ConnectRequest { client_id, public_key } => {
            &&& post.registry@ == pre.registry@.insert(client_id, public_key)
            &&& (cpost.client_id matches Some(id) && id@ == client_id)
            &&& cpost.circuits@ == cpre.circuits@
            &&& (r matches RelayOutcome::Reply(f) && frame_message(f@, pre.key@) == Some(
                connect_response_model(pre),
            ))
        },
        MessageModel::CircuitCreate { circuit_id, .. } => {
            &&& post.registry@ == pre.registry@
            &&& cpost.client_id == cpre.client_id
            &&& cpost.circuits@ == cpre.circuits@.push(circuit_id)
            &&& (r matches RelayOutcome::Reply(f) && frame_message(f@, pre.key@) == Some(
                circuit_created_model(circuit_id),
            ))
        },
        MessageModel::Data { circuit_id, payload } => {
            &&& post.registry@ == pre.registry@
            &&& cpost == cpre
            &&& if !cpre.circuits@.contains(circuit_id) {
                r == RelayOutcome::Abort(RelayError::UnauthorizedCircuit)
            } else if payload.len() + 17 <= MAX_PLAINTEXT_LEN {
                r matches RelayOutcome::Reply(f) && frame_message(f@, pre.key@) == Some(
                    MessageModel::Data { circuit_id, payload },
                )
            } else {
                r == RelayOutcome::Abort(RelayError::Oversize)
            }
        },
        MessageModel::Disconnect => {
            &&& r == RelayOutcome::Disconnected
            &&& cpost == cpre
            &&& (cpre.client_id matches Some(id) ==> post.registry@ == pre.registry@.remove(id@)
                && !post.registry@.contains_key(id@))
            &&& (cpre.client_id is None ==> post.registry@ == pre.registry@)
        },
        _ => {
            &&& r == RelayOutcome::Abort(RelayError::Protocol)
            &&& post.registry@ == pre.registry@
            &&& cpost == cpre
        },
    }
}

/// Unauthorized data is rejected: when a handled frame carries a data
/// message for a circuit the connection never created, the relay abandons
/// the connection instead of echoing, whatever the payload.
pub proof fn lemma_unauthorized_data_rejected(
    pre: RelayNode,
    post: RelayNode,
    cpre: ConnState,
    cpost: ConnState,
    m: MessageModel,
    r: RelayOutcome,
)
    requires
        dispatched(pre, post, cpre, cpost, m, r),
        m matches MessageModel::Data { circuit_id, .. } && !cpre.circuits@.contains(circuit_id),
    ensures
        r == RelayOutcome::Abort(RelayError::UnauthorizedCircuit),
        post.registry@ == pre.registry@,
{
}

/// Disconnect cleans the registry: after a handled frame carries a
/// disconnect, the connection's registered identifier is no longer in the
/// registry, so a later connect request under the same identifier starts
/// fresh.
pub proof fn lemma_disconnect_cleans_registry(
    pre: RelayNode,
    post: RelayNode,
    cpre: ConnState,
    cpost: ConnState,
    r: RelayOutcome,
)
    requires
        dispatched(pre, post, cpre, cpost, MessageModel::Disconnect, r),
        cpre.client_id matches Some(id),
    ensures
        r == RelayOutcome::Disconnected,
        cpre.client_id matches Some(id) ==> !post.registry@.contains_key(id@),
{
}

impl RelayNode {
    /// The node's invariant: a sound registry, and an identifier short
    /// enough for every reply to fit in one frame.
    pub open spec fn wf(self) -> bool {
        &&& self.registry.wf()
        &&& encode_utf8(self.relay_id@).len() <= MAX_RELAY_ID_LEN
    }

    /// Starts a relay with an empty registry.  Refuses a relay identifier
    /// whose UTF-8 encoding is over `MAX_RELAY_ID_LEN` bytes.
    pub fn new(relay_id: String, key: [u8; 32]) -> (r: Option<RelayNode>)
        ensures
            r matches Some(n) ==> {
                &&& n.wf()
                &&& n.relay_id@ == relay_id@
                &&& n.key == key
                &&& n.registry@ == Map::<Seq<char>, Seq<u8>>::empty()
            },
            r is Some <==> encode_utf8(relay_id@).len() <= MAX_RELAY_ID_LEN,
    {
        if relay_id.as_str().as_bytes().len() <= MAX_RELAY_ID_LEN {
            Some(RelayNode { relay_id, key, registry: Registry::new() })
        } else {
            None
        }
    }

    /// Handles one frame received on a connection: picks the key the
    /// connection is entitled to, decrypts, parses, dispatches, and
    /// answers.  Any cryptographic or parse failure abandons the
    /// connection; a data message for a circuit this connection never
    /// created is rejected, not echoed.
    pub fn handle_frame(&mut self, conn: &mut ConnState, frame: &[u8]) -> (r: RelayOutcome)
        requires
            old(self).wf(),
        ensures
            final(self).wf(),
            final(self).relay_id@ == old(self).relay_id@,
            final(self).key == old(self).key,
            conn_key(*old(self), *old(conn)) is None ==> r == RelayOutcome::Abort(
                RelayError::UnknownClient,
            ) && final(self).registry@ == old(self).registry@ && *final(conn) == *old(conn),
            conn_key(*old(self), *old(conn)) matches Some(ck) ==> {
                &&& (spec_decrypt(frame@, ck) matches Err(e) ==> r == RelayOutcome::Abort(
                    RelayError::Crypto(e),
                ) && final(self).registry@ == old(self).registry@ && *final(conn) == *old(conn))
                &&& ((spec_decrypt(frame@, ck) matches Ok(p) && parse_message(p) is None) ==> r
                    == RelayOutcome::Abort(RelayError::Serialization) && final(self).registry@
                    == old(self).registry@ && *final(conn) == *old(conn))
                &&& (frame_message(frame@, ck) matches Some(m) ==> dispatched(
                    *old(self),
                    *final(self),
                    *old(conn),
                    *final(conn),
                    m,
                    r,
                ))
            },
    {
        let key: [u8; 32] = match &conn.client_id {
            Some(id) => match self.registry.get(id) {
                Some(k) => k,
                None => {
                    return RelayOutcome::Abort(RelayError::UnknownClient);
                },
            },
            None => self.key,
        };
        let plain = match decrypt(frame, &key) {
            Ok(p) => p,
            Err(e) => {
                return RelayOutcome::Abort(RelayError::Crypto(e));
            },
        };
        let msg = match decode(plain.as_slice()) {
            Ok(m) => m,
            Err(_) => {
                return RelayOutcome::Abort(RelayError::Serialization);
            },
        };
        match msg {
            PhantomBandMessage::ConnectRequest { client_id, public_key } => {
                self.registry.insert(client_id.clone(), public_key);
                conn.client_id = Some(client_id);
                let notice = "Connection established.";
                proof {
                    reveal_strlit("Connection established.");
                    assert(vstd::utf8::is_ascii_chars(notice@));
                    vstd::utf8::is_ascii_chars_encode_utf8(notice@);
                }
                let reply = PhantomBandMessage::ConnectResponse {
                    relay_id: self.relay_id.clone(),
                    public_key: self.key,
                    success: true,
                    message: Some(notice.to_owned()),
                };
                proof {
                    vstd::bytes::lemma_auto_spec_u64_to_from_le_bytes();
                }
                match crate::codec::encrypt_message(&reply, &self.key) {
                    Some(f) => RelayOutcome::Reply(f),
                    None => unreached(),
                }
            },
            PhantomBandMessage::CircuitCreate { circuit_id, public_key: _ } => {
                self.circuits_note(conn, circuit_id);
                let notice = "Circuit created successfully.";
                proof {
                    reveal_strlit("Circuit created successfully.");
                    assert(vstd::utf8::is_ascii_chars(notice@));
                    vstd::utf8::is_ascii_chars_encode_utf8(notice@);
                }
                let reply = PhantomBandMessage::CircuitCreated {
                    circuit_id,
                    success: true,
                    message: Some(notice.to_owned()),
                };
                proof {
                    vstd::bytes::lemma_auto_spec_u64_to_from_le_bytes();
                }
                match crate::codec::encrypt_message(&reply, &self.key) {
                    Some(f) => RelayOutcome::Reply(f),
                    None => unreached(),
                }
            },
            PhantomBandMessage::Data { circuit_id, payload } => {
                if !self.circuit_known(conn, circuit_id) {
                    return RelayOutcome::Abort(RelayError::UnauthorizedCircuit);
                }
                let reply = PhantomBandMessage::Data { circuit_id, payload };
                proof {
                    vstd::bytes::lemma_auto_spec_u64_to_from_le_bytes();
                }
                match crate::codec::encrypt_message(&reply, &self.key) {
                    Some(f) => RelayOutcome::Reply(f),
                    None => RelayOutcome::Abort(RelayError::Oversize),
                }
            },
            PhantomBandMessage::Disconnect => {
                match &conn.client_id {
                    Some(id) => {
                        self.registry.remove(id);
                    },
                    None => {},
                }
                RelayOutcome::Disconnected
            },
            _ => RelayOutcome::Abort(RelayError::Protocol),
        }
    }

    fn circuits_note(&self, conn: &mut ConnState, circuit_id: u64)
        ensures
            final(conn).client_id == old(conn).client_id,
            final(conn).circuits@ == old(conn).circuits@.push(circuit_id),
    {
        conn.circuits.push(circuit_id);
    }

    fn circuit_known(&self, conn: &ConnState, circuit_id: u64) -> (r: bool)
        ensures
            r == conn.circuits@.contains(circuit_id),
    {
        let mut i: usize = 0;
        while i < conn.circuits.len()
            invariant
                i <= conn.circuits@.len(),
                forall|j: int| 0 <= j < i ==> conn.circuits@[j] != circuit_id,
            decreases conn.circuits@.len() - i,
        {
            if conn.circuits[i] == circuit_id {
                return true;
            }
            i = i + 1;
        }
        false
    }

    /// The peer vanished (a closed or failed connection): deregisters the
    /// connection's client, if one had registered.
    pub fn handle_peer_gone(&mut self, conn: &ConnState)
        requires
            old(self).wf(),
        ensures
            final(self).wf(),
            final(self).relay_id@ == old(self).relay_id@,
            final(self).key == old(self).key,
            conn.client_id matches Some(id) ==> final(self).registry@ == old(
                self,
            ).registry@.remove(id@) && !final(self).registry@.contains_key(id@),
            conn.client_id is None ==> final(self).registry@ == old(self).registry@,
    {
        match &conn.client_id {
            Some(id) => {
                self.registry.remove(id);
            },
            None => {},
        }
    }
}

} // verus!
