//! The keyed persistent store: durable storage of the four record kinds —
//! profiles, statuses, requests, free-form metadata — under one opened
//! handle, backed by an embedded storage engine.
//!
//! Namespaces: profiles and statuses share the node tree under key shapes
//! that can never coincide (a profile key is the raw 32 address bytes, a
//! status key is a 7-byte tag followed by them); requests and metadata each
//! have a tree of their own. "Key not found" is a valid, empty result, never
//! an error.

use vstd::prelude::*;
use vstd::utf8::{decode_utf8, encode_utf8, valid_utf8};
use crate::codec::{enc_profile, enc_request, enc_status, encode_profile, encode_request,
    encode_status, decode_profile, decode_request, decode_status, spec_dec_profile,
    spec_dec_request, spec_dec_status, string_from_utf8, lemma_profile_round_trip,
    lemma_request_round_trip, lemma_status_round_trip, wf_profile, wf_request, wf_status};
use crate::types::{lemma_address_len, Address, InferenceRequest, InferenceRequestView,
    NodeProfile, NodeProfileView, NodeStatus, NodeStatusView};

verus! {

// ---------------------------------------------------------------------------
// The embedded engine, behind trusted declarations: sled's database handle
// and its named trees, each a disk-backed keyspace of its own.
// ---------------------------------------------------------------------------

#[verifier::external_type_specification]
#[verifier::external_body]
pub struct ExDb(sled::Db);

#[verifier::external_type_specification]
#[verifier::external_body]
pub struct ExTree(sled::Tree);

/// What a tree holds: the map from key bytes to value bytes. Named, not
/// defined: only the engine computes it.
pub uninterp spec fn tree_map(t: sled::Tree) -> Map<Seq<u8>, Seq<u8>>;

/// Relies on sled::open: opens or creates the on-disk database at the path;
/// fails when the location is unusable (permissions, corruption, a lock held
/// by another process).
#[verifier::external_body]
fn open_db(path: &str) -> (r: Result<sled::Db, String>) {
    sled::open(path).map_err(|e| e.to_string())
}

/// Relies on sled::Db::open_tree: opens or creates the disk-backed tree of
/// that name, a keyspace disjoint from every other tree's.
#[verifier::external_body]
fn open_tree(db: &sled::Db, name: &str) -> (r: Result<sled::Tree, String>) {
    db.open_tree(name).map_err(|e| e.to_string())
}

/// Relies on sled::Tree::insert: on success the tree holds exactly its prior
/// contents with this key now mapped to this value.
#[verifier::external_body]
fn tree_insert(t: &mut sled::Tree, key: &[u8], value: &[u8]) -> (r: Result<(), String>)
    ensures
        r is Ok ==> tree_map(*final(t)) == tree_map(*old(t)).insert(key@, value@),
{
    (*t).insert(key, value).map(|_| ()).map_err(|e| e.to_string())
}

/// Relies on sled::Tree::get: returns the value the tree holds for the key,
/// or nothing when the key is absent.
#[verifier::external_body]
fn tree_get(t: &sled::Tree, key: &[u8]) -> (r: Result<Option<Vec<u8>>, String>)
    ensures
        match r {
            Ok(Some(v)) => tree_map(*t).contains_key(key@) && v@ == tree_map(*t)[key@],
            Ok(None) => !tree_map(*t).contains_key(key@),
            Err(_) => true,
        },
{
    match t.get(key) {
        Ok(Some(ivec)) => Ok(Some(ivec.to_vec())),
        Ok(None) => Ok(None),
        Err(e) => Err(e.to_string()),
    }
}

/// Relies on sled::Tree::flush (reached through the database handle): forces
/// buffered writes to durable storage without changing what is held.
#[verifier::external_body]
fn db_flush(db: &sled::Db) -> (r: Result<(), String>) {
    match db.flush() {
        Ok(_) => Ok(()),
        Err(e) => Err(e.to_string()),
    }
}

// ---------------------------------------------------------------------------
// Errors. "Key not found" is not among them: absence is an empty result.
// ---------------------------------------------------------------------------

/// The store's error taxonomy. `Open`: the handle could not be acquired or
/// initialized. `Read`: an engine-level retrieval failure. `Write`: an
/// engine-level persistence failure. `Serialize`: a stored byte blob does
/// not decode to its expected record shape.
#[derive(Debug, Clone)]
pub enum StorageError {
    Open(String),
    Read(String),
    Write(String),
    Serialize(String),
}

// ---------------------------------------------------------------------------
// Key encodings, and the proof that the two key shapes sharing the node tree
// can never coincide.
// ---------------------------------------------------------------------------

/// A profile is keyed by the raw 32 address bytes.
pub open spec fn spec_profile_key(address: Seq<u8>) -> Seq<u8> {
    address
}

/// The reserved tag in front of every status key: the ASCII bytes of
/// "status:".
pub open spec fn status_tag() -> Seq<u8> {
    seq![115u8, 116u8, 97u8, 116u8, 117u8, 115u8, 58u8]
}

/// A status is keyed by the tag then the raw 32 address bytes, in the same
/// tree as profiles.
pub open spec fn spec_status_key(address: Seq<u8>) -> Seq<u8> {
    status_tag() + address
}

/// A request is keyed by the UTF-8 bytes of its caller-chosen identifier.
pub open spec fn spec_request_key(request_id: Seq<char>) -> Seq<u8> {
    encode_utf8(request_id)
}

/// A metadata entry is keyed by the UTF-8 bytes of its key string.
pub open spec fn spec_meta_key(key: Seq<char>) -> Seq<u8> {
    encode_utf8(key)
}

/// No status key coincides with a profile key: a profile key is exactly 32
/// bytes, a status key is the 7-byte tag plus 32 bytes. This is the
/// load-bearing invariant letting the two kinds share one tree.
pub proof fn lemma_profile_status_keys_disjoint(a: Address, b: Address)
    ensures
        spec_profile_key(a@) != spec_status_key(b@),
{
    lemma_address_len(a);
    lemma_address_len(b);
    assert(spec_profile_key(a@).len() == 32);
    assert(spec_status_key(b@).len() == 39);
}

fn status_key(address: &Address) -> (k: Vec<u8>)
    ensures
        k@ == spec_status_key(address@),
{
    let mut k: Vec<u8> = Vec::new();
    // the ASCII bytes of "status:"
    k.push(115);
    k.push(116);
    k.push(97);
    k.push(116);
    k.push(117);
    k.push(115);
    k.push(58);
    k.extend_from_slice(address.as_bytes().as_slice());
    proof {
        assert(k@ =~= spec_status_key(address@));
    }
    k
}

// ---------------------------------------------------------------------------
// The store.
// ---------------------------------------------------------------------------

/// An opened store. No operation is valid before [`Storage::open`] succeeds,
/// and none after the value is dropped; ownership enforces both.
pub struct Storage {
    db: sled::Db,
    nodes: sled::Tree,
    requests: sled::Tree,
    meta: sled::Tree,
}

impl Storage {
    /// The node namespace: profile and status records, under their two
    /// disjoint key shapes.
    pub closed spec fn nodes_view(&self) -> Map<Seq<u8>, Seq<u8>> {
        tree_map(self.nodes)
    }

    /// The request namespace.
    pub closed spec fn requests_view(&self) -> Map<Seq<u8>, Seq<u8>> {
        tree_map(self.requests)
    }

    /// The metadata namespace.
    pub closed spec fn meta_view(&self) -> Map<Seq<u8>, Seq<u8>> {
        tree_map(self.meta)
    }

    /// Initialize or attach to on-disk state at `path`, creating the
    /// namespaces if absent. Fails with `Open` exactly when the engine
    /// cannot acquire or initialize the location.
    pub fn open(path: &str) -> (r: Result<Storage, StorageError>)
        ensures
            r matches Err(e) ==> e is Open,
    {
        let db = match open_db(path) {
            Ok(d) => d,
            Err(m) => {
                return Err(StorageError::Open(m));
            },
        };
        let nodes = match open_tree(&db, "nodes") {
            Ok(t) => t,
            Err(m) => {
                return Err(StorageError::Open(m));
            },
        };
        let requests = match open_tree(&db, "requests") {
            Ok(t) => t,
            Err(m) => {
                return Err(StorageError::Open(m));
            },
        };
        let meta = match open_tree(&db, "meta") {
            Ok(t) => t,
            Err(m) => {
                return Err(StorageError::Open(m));
            },
        };
        Ok(Storage { db, nodes, requests, meta })
    }

    /// Store the profile under the raw address bytes, wholly replacing any
    /// prior record for that address; status records and the other
    /// namespaces are untouched. Fails only with `Write`, on an engine-level
    /// persistence failure.
    pub fn put_node_profile(&mut self, address: &Address, profile: &NodeProfile) -> (r: Result<
        (),
        StorageError,
    >)
        ensures
            r is Ok ==> final(self).nodes_view() == old(self).nodes_view().insert(
                spec_profile_key(address@),
                enc_profile(profile@),
            ),
            final(self).requests_view() == old(self).requests_view(),
            final(self).meta_view() == old(self).meta_view(),
            r matches Err(e) ==> e is Write,
            wf_profile(profile@),
    {
        let value = encode_profile(profile);
        match tree_insert(&mut self.nodes, address.as_bytes().as_slice(), value.as_slice()) {
            Ok(()) => Ok(()),
            Err(m) => Err(StorageError::Write(m)),
        }
    }

    /// Fetch the profile stored under the address. Absence is the empty
    /// result, not an error; `Read` reports an engine-level retrieval
    /// failure, `Serialize` a stored blob that does not decode as a profile.
    pub fn get_node_profile(&self, address: &Address) -> (r: Result<
        Option<NodeProfile>,
        StorageError,
    >)
        ensures
            match r {
                Ok(Some(p)) => self.nodes_view().contains_key(spec_profile_key(address@))
                    && spec_dec_profile(self.nodes_view()[spec_profile_key(address@)]) == Some(p@),
                Ok(None) => !self.nodes_view().contains_key(spec_profile_key(address@)),
                Err(e) => e is Read || (e is Serialize && self.nodes_view().contains_key(
                    spec_profile_key(address@),
                ) && spec_dec_profile(self.nodes_view()[spec_profile_key(address@)]) is None),
            },
    {
        match tree_get(&self.nodes, address.as_bytes().as_slice()) {
            Ok(Some(bytes)) => match decode_profile(bytes.as_slice()) {
                Some(p) => Ok(Some(p)),
                None => Err(
                    StorageError::Serialize("stored bytes do not decode as a profile".to_owned()),
                ),
            },
            Ok(None) => Ok(None),
            Err(m) => Err(StorageError::Read(m)),
        }
    }

    /// Store the status under the tagged address key, wholly replacing any
    /// prior status; the profile under the same address and the other
    /// namespaces are untouched.
    pub fn put_node_status(&mut self, address: &Address, status: &NodeStatus) -> (r: Result<
        (),
        StorageError,
    >)
        ensures
            r is Ok ==> final(self).nodes_view() == old(self).nodes_view().insert(
                spec_status_key(address@),
                enc_status(status@),
            ),
            final(self).requests_view() == old(self).requests_view(),
            final(self).meta_view() == old(self).meta_view(),
            r matches Err(e) ==> e is Write,
            wf_status(status@),
    {
        let key = status_key(address);
        let value = encode_status(status);
        match tree_insert(&mut self.nodes, key.as_slice(), value.as_slice()) {
            Ok(()) => Ok(()),
            Err(m) => Err(StorageError::Write(m)),
        }
    }

    /// Fetch the status stored under the tagged address key.
    pub fn get_node_status(&self, address: &Address) -> (r: Result<
        Option<NodeStatus>,
        StorageError,
    >)
        ensures
            match r {
                Ok(Some(v)) => self.nodes_view().contains_key(spec_status_key(address@))
                    && spec_dec_status(self.nodes_view()[spec_status_key(address@)]) == Some(v@),
                Ok(None) => !self.nodes_view().contains_key(spec_status_key(address@)),
                Err(e) => e is Read || (e is Serialize && self.nodes_view().contains_key(
                    spec_status_key(address@),
                ) && spec_dec_status(self.nodes_view()[spec_status_key(address@)]) is None),
            },
    {
        let key = status_key(address);
        match tree_get(&self.nodes, key.as_slice()) {
            Ok(Some(bytes)) => match decode_status(bytes.as_slice()) {
                Some(v) => Ok(Some(v)),
                None => Err(
                    StorageError::Serialize("stored bytes do not decode as a status".to_owned()),
                ),
            },
            Ok(None) => Ok(None),
            Err(m) => Err(StorageError::Read(m)),
        }
    }

    /// Store the request under the UTF-8 bytes of its own identifier,
    /// wholly replacing any prior record with that identifier. The store
    /// enforces no uniqueness beyond last-write-wins.
    pub fn put_request(&mut self, request: &InferenceRequest) -> (r: Result<(), StorageError>)
        ensures
            r is Ok ==> final(self).requests_view() == old(self).requests_view().insert(
                spec_request_key(request.request_id@),
                enc_request(request@),
            ),
            final(self).nodes_view() == old(self).nodes_view(),
            final(self).meta_view() == old(self).meta_view(),
            r matches Err(e) ==> e is Write,
            wf_request(request@),
    {
        let value = encode_request(request);
        match tree_insert(
            &mut self.requests,
            request.request_id.as_str().as_bytes(),
            value.as_slice(),
        ) {
            Ok(()) => Ok(()),
            Err(m) => Err(StorageError::Write(m)),
        }
    }

    /// Fetch the request stored under the identifier's UTF-8 bytes.
    pub fn get_request(&self, request_id: &str) -> (r: Result<
        Option<InferenceRequest>,
        StorageError,
    >)
        ensures
            match r {
                Ok(Some(q)) => self.requests_view().contains_key(spec_request_key(request_id@))
                    && spec_dec_request(self.requests_view()[spec_request_key(request_id@)])
                    == Some(q@),
                Ok(None) => !self.requests_view().contains_key(spec_request_key(request_id@)),
                Err(e) => e is Read || (e is Serialize && self.requests_view().contains_key(
                    spec_request_key(request_id@),
                ) && spec_dec_request(self.requests_view()[spec_request_key(request_id@)])
                    is None),
            },
    {
        match tree_get(&self.requests, request_id.as_bytes()) {
            Ok(Some(bytes)) => match decode_request(bytes.as_slice()) {
                Some(q) => Ok(Some(q)),
                None => Err(
                    StorageError::Serialize("stored bytes do not decode as a request".to_owned()),
                ),
            },
            Ok(None) => Ok(None),
            Err(m) => Err(StorageError::Read(m)),
        }
    }

    /// Store a metadata value verbatim — its raw UTF-8 bytes, not a
    /// structured encoding — under the UTF-8 bytes of the key string.
    pub fn set_meta(&mut self, key: &str, value: &str) -> (r: Result<(), StorageError>)
        ensures
            r is Ok ==> final(self).meta_view() == old(self).meta_view().insert(
                spec_meta_key(key@),
                encode_utf8(value@),
            ),
            final(self).nodes_view() == old(self).nodes_view(),
            final(self).requests_view() == old(self).requests_view(),
            r matches Err(e) ==> e is Write,
    {
        match tree_insert(&mut self.meta, key.as_bytes(), value.as_bytes()) {
            Ok(()) => Ok(()),
            Err(m) => Err(StorageError::Write(m)),
        }
    }

    /// Fetch a metadata value as the string whose UTF-8 bytes are stored
    /// under the key. A stored blob that is not valid UTF-8 is a `Serialize`
    /// error.
    pub fn get_meta(&self, key: &str) -> (r: Result<Option<String>, StorageError>)
        ensures
            match r {
                Ok(Some(v)) => self.meta_view().contains_key(spec_meta_key(key@)) && valid_utf8(
                    self.meta_view()[spec_meta_key(key@)],
                ) && v@ == decode_utf8(self.meta_view()[spec_meta_key(key@)]),
                Ok(None) => !self.meta_view().contains_key(spec_meta_key(key@)),
                Err(e) => e is Read || (e is Serialize && self.meta_view().contains_key(
                    spec_meta_key(key@),
                ) && !valid_utf8(self.meta_view()[spec_meta_key(key@)])),
            },
    {
        match tree_get(&self.meta, key.as_bytes()) {
            Ok(Some(bytes)) => match string_from_utf8(bytes) {
                Some(v) => Ok(Some(v)),
                None => Err(
                    StorageError::Serialize("stored bytes are not valid text".to_owned()),
                ),
            },
            Ok(None) => Ok(None),
            Err(m) => Err(StorageError::Read(m)),
        }
    }

    /// Force buffered writes to durable storage. Safe to call at any time;
    /// never changes what the store holds.
    pub fn flush(&self) -> (r: Result<(), StorageError>)
        ensures
            r matches Err(e) ==> e is Write,
    {
        match db_flush(&self.db) {
            Ok(()) => Ok(()),
            Err(m) => Err(StorageError::Write(m)),
        }
    }
}

// ---------------------------------------------------------------------------
// The store's laws, stated over the same views and spec functions its
// contracts use.
// ---------------------------------------------------------------------------

/// Overwrite: a second put to the same key wholly replaces the first; the
/// namespace afterwards is as if only the second had happened.
pub proof fn lemma_put_overwrites(
    m: Map<Seq<u8>, Seq<u8>>,
    k: Seq<u8>,
    v1: Seq<u8>,
    v2: Seq<u8>,
)
    ensures
        m.insert(k, v1).insert(k, v2) == m.insert(k, v2),
{
    assert(m.insert(k, v1).insert(k, v2) =~= m.insert(k, v2));
}

/// Round trip: the bytes a profile put stores under an address decode back
/// to exactly the record that was stored.
pub proof fn lemma_profile_store_round_trip(
    m: Map<Seq<u8>, Seq<u8>>,
    a: Address,
    p: NodeProfileView,
)
    requires
        wf_profile(p),
    ensures
        m.insert(spec_profile_key(a@), enc_profile(p)).contains_key(spec_profile_key(a@)),
        spec_dec_profile(m.insert(spec_profile_key(a@), enc_profile(p))[spec_profile_key(a@)])
            == Some(p),
{
    lemma_profile_round_trip(p);
}

/// Round trip: the bytes a status put stores under an address decode back to
/// exactly the record that was stored.
pub proof fn lemma_status_store_round_trip(
    m: Map<Seq<u8>, Seq<u8>>,
    a: Address,
    v: NodeStatusView,
)
    requires
        wf_status(v),
    ensures
        m.insert(spec_status_key(a@), enc_status(v)).contains_key(spec_status_key(a@)),
        spec_dec_status(m.insert(spec_status_key(a@), enc_status(v))[spec_status_key(a@)]) == Some(
            v,
        ),
{
    lemma_status_round_trip(v);
}

/// Round trip: the bytes a request put stores under its identifier decode
/// back to exactly the record that was stored.
pub proof fn lemma_request_store_round_trip(m: Map<Seq<u8>, Seq<u8>>, q: InferenceRequestView)
    requires
        wf_request(q),
    ensures
        m.insert(spec_request_key(q.request_id), enc_request(q)).contains_key(
            spec_request_key(q.request_id),
        ),
        spec_dec_request(
            m.insert(spec_request_key(q.request_id), enc_request(q))[spec_request_key(
                q.request_id,
            )],
        ) == Some(q),
{
    lemma_request_round_trip(q);
}

/// Round trip: the bytes a metadata put stores under a key read back as
/// exactly the value string that was stored.
pub proof fn lemma_meta_store_round_trip(m: Map<Seq<u8>, Seq<u8>>, key: Seq<char>, value: Seq<char>)
    ensures
        m.insert(spec_meta_key(key), encode_utf8(value)).contains_key(spec_meta_key(key)),
        valid_utf8(m.insert(spec_meta_key(key), encode_utf8(value))[spec_meta_key(key)]),
        decode_utf8(m.insert(spec_meta_key(key), encode_utf8(value))[spec_meta_key(key)]) == value,
{
    vstd::utf8::encode_utf8_valid_utf8(value);
    vstd::utf8::encode_utf8_decode_utf8(value);
}

/// Non-collision, one direction: writing a status never disturbs the profile
/// stored for any address — present or absent, the profile read is decided
/// only by profile writes.
pub proof fn lemma_status_put_preserves_profiles(
    m: Map<Seq<u8>, Seq<u8>>,
    a: Address,
    b: Address,
    v: Seq<u8>,
)
    ensures
        m.insert(spec_status_key(b@), v).contains_key(spec_profile_key(a@)) == m.contains_key(
            spec_profile_key(a@),
        ),
        m.contains_key(spec_profile_key(a@)) ==> m.insert(spec_status_key(b@), v)[spec_profile_key(
            a@,
        )] == m[spec_profile_key(a@)],
{
    lemma_profile_status_keys_disjoint(a, b);
}

/// Non-collision, the other direction: writing a profile never disturbs the
/// status stored for any address.
pub proof fn lemma_profile_put_preserves_statuses(
    m: Map<Seq<u8>, Seq<u8>>,
    a: Address,
    b: Address,
    v: Seq<u8>,
)
    ensures
        m.insert(spec_profile_key(b@), v).contains_key(spec_status_key(a@)) == m.contains_key(
            spec_status_key(a@),
        ),
        m.contains_key(spec_status_key(a@)) ==> m.insert(spec_profile_key(b@), v)[spec_status_key(
            a@,
        )] == m[spec_status_key(a@)],
{
    lemma_profile_status_keys_disjoint(b, a);
}

} // verus!
