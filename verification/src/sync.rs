//! Shared state: a replicated document and the messages that keep its
//! replicas in step.
//!
//! The document is a conflict-free replicated data type of the `yrs` crate.
//! Replicas converge by exchanging state vectors (step one) and the updates
//! that the sender of a state vector lacks (step two).
//!
//! Updates reach this module decoded ([`DecodedSync`]): whoever takes the
//! bytes off the network decodes them, and hands over the update or its
//! absence. State vectors are decoded here, after [`crate::lib0`] has
//! checked how they are written.

use vstd::prelude::*;
use crate::lib0::{is_well_written, well_written};
use yrs::updates::decoder::Decode;
use yrs::updates::encoder::Encode;
use yrs::{Doc, ReadTxn, StateVector, Transact, Update};

verus! {

#[verifier::external_type_specification]
#[verifier::external_body]
pub struct ExDoc(Doc);

#[verifier::external_type_specification]
#[verifier::external_body]
pub struct ExUpdate(Update);

#[verifier::external_type_specification]
#[verifier::external_body]
pub struct ExStateVector(StateVector);

/// Whether the bytes are a state vector in the first version of the lib0
/// encoding, as `yrs` decodes it.
pub uninterp spec fn is_state_vector(bytes: Seq<u8>) -> bool;

/// The texts that the root map `map` of the document holds: under each key
/// whose value is a string, that string. Values of any other kind are left
/// out.
pub uninterp spec fn map_entries(doc: Doc, map: Seq<char>) -> Map<Seq<char>, Seq<char>>;

/// What a state vector holds: for each client of which it knows, by its
/// number, the clock up to which it has seen that client's changes.
pub uninterp spec fn clocks(vector: StateVector) -> Map<u64, u32>;

/// What the state vector holds that the bytes encode, where they encode
/// one.
pub uninterp spec fn vector_clocks(bytes: Seq<u8>) -> Map<u64, u32>;

/// The encoded state vector of the document.
pub uninterp spec fn state_vector_of(doc: Doc) -> Seq<u8>;

/// The encoded update that brings a replica whose state vector holds
/// `clocks` up to the document: what `yrs` encodes as the state of the
/// document since that state vector.
pub uninterp spec fn update_since(doc: Doc, clocks: Map<u64, u32>) -> Seq<u8>;

/// Whether the document takes the update when it is applied.
pub uninterp spec fn update_fits(doc: Doc, update: Update) -> bool;

/// The document after the update was applied to it.
pub uninterp spec fn integrated(doc: Doc, update: Update) -> Doc;

/// Name of the map that holds the status of each peer.
pub const PEERS_MAP: &'static str = "peers";

/// What replicas send each other.
#[derive(Debug)]
pub enum SyncMessage {
    /// A change to the document.
    Update(Vec<u8>),
    /// The sender's state vector: a request for what the sender lacks.
    SyncStep1(Vec<u8>),
    /// The updates that the sender of a state vector lacks.
    SyncStep2(Vec<u8>),
}

/// The mathematical value of a [`SyncMessage`].
pub enum SyncView {
    Update(Seq<u8>),
    SyncStep1(Seq<u8>),
    SyncStep2(Seq<u8>),
}

impl View for SyncMessage {
    type V = SyncView;

    open spec fn view(&self) -> SyncView {
        match self {
            SyncMessage::Update(bytes) => SyncView::Update(bytes@),
            SyncMessage::SyncStep1(bytes) => SyncView::SyncStep1(bytes@),
            SyncMessage::SyncStep2(bytes) => SyncView::SyncStep2(bytes@),
        }
    }
}

/// A sync message as it reaches the document. Whoever receives the bytes
/// decodes the updates before they come here: an update is there where the
/// bytes were one, and missing where they were not.
#[derive(Debug)]
pub enum DecodedSync {
    /// A change to the document.
    Update(Option<Update>),
    /// The sender's state vector, still encoded.
    SyncStep1(Vec<u8>),
    /// The updates that this replica lacked.
    SyncStep2(Option<Update>),
}

/// Why a sync message had no effect.
#[derive(Debug, Clone, Copy, PartialEq, Eq, Structural)]
pub enum SyncError {
    /// The bytes could not be decoded.
    Malformed,
    /// The document refused the update.
    Rejected,
}

/// A replica of the shared document.
pub struct SharedState {
    doc: Doc,
    topic: String,
}

/// Trusted: `yrs::Doc::new`. The new document has no root map that holds
/// anything.
#[verifier::external_body]
fn new_doc() -> (doc: Doc)
    ensures
        forall|map: Seq<char>, key: Seq<char>| !(#[trigger] map_entries(doc, map).contains_key(key)),
{
    Doc::new()
}

/// Trusted: `yrs::StateVector::decode_v1`, on bytes that begin with a state
/// vector written in full, with every client number below two to the
/// fifty-third. The bytes decode exactly if they are a state vector, and
/// what the decoded vector holds depends on the bytes alone.
#[verifier::external_body]
fn decode_state_vector(bytes: &[u8]) -> (vector: Option<StateVector>)
    requires
        well_written(bytes@),
    ensures
        match vector {
            Some(decoded) => is_state_vector(bytes@) && clocks(decoded) == vector_clocks(bytes@),
            None => !is_state_vector(bytes@),
        },
{
    StateVector::decode_v1(bytes).ok()
}

/// Trusted: `yrs::StateVector::default`, the state vector of a replica that
/// has seen nothing: it knows of no client.
#[verifier::external_body]
fn empty_state_vector() -> (vector: StateVector)
    ensures
        forall|client: u64| !(#[trigger] clocks(vector).contains_key(client)),
{
    StateVector::default()
}

/// Trusted: `yrs::TransactionMut::apply_update` in a transaction of its
/// own. Says whether the document took the update. Both that and the
/// document afterwards depend on the document before and the update alone.
#[verifier::external_body]
fn apply_to(doc: &mut Doc, update: Update) -> (taken: bool)
    ensures
        taken == update_fits(*old(doc), update),
        *final(doc) == integrated(*old(doc), update),
{
    let mut txn = doc.transact_mut();
    txn.apply_update(update).is_ok()
}

/// Trusted: `yrs::ReadTxn::encode_state_as_update_v1` in a transaction of
/// its own. The bytes depend on the document and on what the state vector
/// holds alone.
#[verifier::external_body]
fn encode_since(doc: &Doc, vector: &StateVector) -> (update: Vec<u8>)
    ensures
        update@ == update_since(*doc, clocks(*vector)),
{
    let txn = doc.transact();
    txn.encode_state_as_update_v1(vector)
}

/// Trusted: `yrs::ReadTxn::state_vector`, encoded, in a transaction of its
/// own. The bytes depend on the document alone, and they are a state
/// vector, as `yrs::StateVector::decode_v1` decodes it.
#[verifier::external_body]
fn encode_state_vector(doc: &Doc) -> (vector: Vec<u8>)
    ensures
        vector@ == state_vector_of(*doc),
        is_state_vector(vector@),
{
    let txn = doc.transact();
    txn.state_vector().encode_v1()
}

/// Trusted: `yrs::Map::insert` on the root map `map`, in a transaction of
/// its own. The map then holds the value under the key, and under every
/// other key what it held before.
#[verifier::external_body]
fn put_entry(doc: &mut Doc, map: &str, key: &str, value: &str)
    ensures
        map_entries(*final(doc), map@) == map_entries(*old(doc), map@).insert(key@, value@),
{
    let entries = doc.get_or_insert_map(map);
    let mut txn = doc.transact_mut();
    yrs::Map::insert(&entries, &mut txn, key, value);
}

/// Trusted: `yrs::Map::get` on the root map `map`, in a transaction of its
/// own: the string that the map holds under the key, if it holds a string
/// there. A value of any other kind counts as none.
#[verifier::external_body]
fn get_entry(doc: &Doc, map: &str, key: &str) -> (value: Option<String>)
    ensures
        match value {
            Some(text) => map_entries(*doc, map@).contains_key(key@) && map_entries(
                *doc,
                map@,
            )[key@] == text@,
            None => !map_entries(*doc, map@).contains_key(key@),
        },
{
    let entries = doc.get_or_insert_map(map);
    let txn = doc.transact();
    match yrs::Map::get(&entries, &txn, key) {
        Some(yrs::Out::Any(yrs::Any::String(text))) => Some(text.to_string()),
        _ => None,
    }
}

/// What applying an update comes to, given whether there was an update to
/// apply and, if so, whether the document took it.
pub open spec fn apply_outcome_of(taken: Option<bool>) -> Result<(), SyncError> {
    match taken {
        None => Err(SyncError::Malformed),
        Some(false) => Err(SyncError::Rejected),
        Some(true) => Ok(()),
    }
}

/// Computes [`apply_outcome_of`].
pub fn apply_outcome(taken: Option<bool>) -> (outcome: Result<(), SyncError>)
    ensures
        outcome == apply_outcome_of(taken),
{
    match taken {
        None => Err(SyncError::Malformed),
        Some(false) => Err(SyncError::Rejected),
        Some(true) => Ok(()),
    }
}

impl SharedState {
    /// The name of the topic on which the replicas talk.
    pub closed spec fn topic_name(&self) -> Seq<char> {
        self.topic@
    }

    /// The status that the document holds of each peer of which it holds
    /// one as a string.
    pub closed spec fn entries(&self) -> Map<Seq<char>, Seq<char>> {
        map_entries(self.doc, PEERS_MAP@)
    }

    /// The encoded state vector of this replica.
    pub closed spec fn state_vector(&self) -> Seq<u8> {
        state_vector_of(self.doc)
    }

    /// The encoded update that brings a replica whose state vector holds
    /// `clocks` up to this one.
    pub closed spec fn since(&self, clocks: Map<u64, u32>) -> Seq<u8> {
        update_since(self.doc, clocks)
    }

    /// Whether the document of this replica takes the update.
    pub closed spec fn takes(&self, update: Update) -> bool {
        update_fits(self.doc, update)
    }

    /// This replica after the update was applied to its document.
    pub closed spec fn taking(&self, update: Update) -> SharedState {
        SharedState { doc: integrated(self.doc, update), topic: self.topic }
    }

    /// An empty replica that talks on the topic `topic_name`.
    pub fn new(topic_name: &str) -> (state: SharedState)
        ensures
            state.topic_name() == topic_name@,
            state.entries() == Map::<Seq<char>, Seq<char>>::empty(),
    {
        let state = SharedState { doc: new_doc(), topic: topic_name.to_owned() };
        assert(state.entries() =~= Map::<Seq<char>, Seq<char>>::empty());
        state
    }

    /// The name of the topic on which the replicas talk.
    pub fn topic(&self) -> (name: &str)
        ensures
            name@ == self.topic_name(),
    {
        self.topic.as_str()
    }

    /// Applies an update that arrived from the network. Where the bytes
    /// that arrived were no update, and so none is there, the message is
    /// refused as malformed and the replica stays as it was. An update that
    /// is there is applied, and is rejected where the document does not
    /// take it.
    pub fn apply_update(&mut self, update: Option<Update>) -> (outcome: Result<(), SyncError>)
        ensures
            match update {
                Some(u) => *final(self) == old(self).taking(u) && outcome == apply_outcome_of(
                    Some(old(self).takes(u)),
                ),
                None => *final(self) == *old(self) && outcome == apply_outcome_of(None),
            },
            final(self).topic_name() == old(self).topic_name(),
    {
        match update {
            Some(decoded) => apply_outcome(Some(apply_to(&mut self.doc, decoded))),
            None => apply_outcome(None),
        }
    }

    /// The updates that a replica at the given state vector lacks, encoded.
    pub fn get_update_since(&self, sv: &StateVector) -> (update: Vec<u8>)
        ensures
            update@ == self.since(clocks(*sv)),
    {
        encode_since(&self.doc, sv)
    }

    /// Everything this replica holds, encoded: the updates that a replica
    /// lacks which has seen nothing.
    pub fn snapshot(&self) -> (update: Vec<u8>)
        ensures
            update@ == self.since(Map::<u64, u32>::empty()),
    {
        let nothing = empty_state_vector();
        assert(clocks(nothing) =~= Map::<u64, u32>::empty());
        encode_since(&self.doc, &nothing)
    }

    /// The first step of a sync: this replica's state vector, encoded.
    pub fn create_sync_step_1(&self) -> (message: SyncMessage)
        ensures
            message@ == SyncView::SyncStep1(self.state_vector()),
            is_state_vector(self.state_vector()),
    {
        SyncMessage::SyncStep1(encode_state_vector(&self.doc))
    }

    /// Whether the bytes are taken as a state vector: they must be written
    /// in full, with every client number below two to the fifty-third, and
    /// decode.
    pub open spec fn reads_vector(bytes: Seq<u8>) -> bool {
        well_written(bytes) && is_state_vector(bytes)
    }

    /// Answers the first step of a sync with the second: the updates that
    /// the sender of the state vector lacks. Bytes that are not taken as a
    /// state vector are refused as malformed.
    pub fn handle_sync_step_1(&self, sv_bytes: &[u8]) -> (reply: Result<SyncMessage, SyncError>)
        ensures
            match reply {
                Ok(message) => Self::reads_vector(sv_bytes@) && message@ == SyncView::SyncStep2(
                    self.since(vector_clocks(sv_bytes@)),
                ),
                Err(error) => !Self::reads_vector(sv_bytes@) && error == SyncError::Malformed,
            },
    {
        if !is_well_written(sv_bytes) {
            return Err(SyncError::Malformed);
        }
        match decode_state_vector(sv_bytes) {
            Some(vector) => Ok(SyncMessage::SyncStep2(encode_since(&self.doc, &vector))),
            None => Err(SyncError::Malformed),
        }
    }

    /// Takes the second step of a sync: applies the updates received.
    pub fn handle_sync_step_2(&mut self, update: Option<Update>) -> (outcome: Result<(), SyncError>)
        ensures
            match update {
                Some(u) => *final(self) == old(self).taking(u) && outcome == apply_outcome_of(
                    Some(old(self).takes(u)),
                ),
                None => *final(self) == *old(self) && outcome == apply_outcome_of(None),
            },
            final(self).topic_name() == old(self).topic_name(),
    {
        self.apply_update(update)
    }

    /// Records a peer's status in the shared document: the document then
    /// holds this status of the peer, and of every other peer what it held
    /// before.
    pub fn update_peer_status(&mut self, peer_id: &str, status: &str)
        ensures
            final(self).entries() == old(self).entries().insert(peer_id@, status@),
            final(self).topic_name() == old(self).topic_name(),
    {
        put_entry(&mut self.doc, PEERS_MAP, peer_id, status);
    }

    /// The status that the shared document holds of a peer, if it holds
    /// one as a string.
    pub fn peer_status(&self, peer_id: &str) -> (status: Option<String>)
        ensures
            match status {
                Some(text) => self.entries().contains_key(peer_id@) && self.entries()[peer_id@]
                    == text@,
                None => !self.entries().contains_key(peer_id@),
            },
    {
        get_entry(&self.doc, PEERS_MAP, peer_id)
    }
}

} // verus!
