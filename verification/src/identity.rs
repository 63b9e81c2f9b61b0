//! Node identity: key generation, one-way address derivation, message
//! signing, and fail-closed verification of detached signatures.

use vstd::prelude::*;
use crate::types::Address;

verus! {

/// The SHA-256 digest of a byte sequence. Named, not written out: the digest
/// is computed only by the sha2 crate, and is a function of the input alone.
pub uninterp spec fn sha256_of(bytes: Seq<u8>) -> Seq<u8>;

/// The Ed25519 public key derived from a 32-byte secret key; a function of
/// the secret key alone.
pub uninterp spec fn ed25519_pubkey_of(secret: Seq<u8>) -> Seq<u8>;

/// The Ed25519 signature over a message under a 32-byte secret key. Ed25519
/// signing is deterministic: a function of key and message alone.
pub uninterp spec fn ed25519_sig_of(secret: Seq<u8>, message: Seq<u8>) -> Seq<u8>;

/// Whether Ed25519 verification accepts a signature over a message under a
/// public key, all three given as raw bytes; a function of those bytes alone.
pub uninterp spec fn ed25519_verifies(
    public_key: Seq<u8>,
    message: Seq<u8>,
    signature: Seq<u8>,
) -> bool;

/// Relies on rand's OsRng: fills the array from the operating system's
/// cryptographically secure random source. Nothing is promised of the bytes;
/// on a host whose random source is broken the call aborts.
#[verifier::external_body]
fn random_bytes_32() -> (r: [u8; 32]) {
    let mut bytes = [0u8; 32];
    rand::RngCore::fill_bytes(&mut rand::rngs::OsRng, &mut bytes);
    bytes
}

/// Relies on sha2's Sha256: a deterministic 32-byte digest of the input.
#[verifier::external_body]
fn sha256(bytes: &[u8]) -> (r: [u8; 32])
    ensures
        r@ == sha256_of(bytes@),
{
    let digest = <sha2::Sha256 as sha2::Digest>::digest(bytes);
    digest.into()
}

/// Relies on ed25519_dalek's SigningKey::from_bytes and verifying_key: every
/// 32-byte value is a valid secret key, and the public key is a
/// deterministic 32-byte function of it.
#[verifier::external_body]
fn derive_verifying_key(secret: &[u8; 32]) -> (r: [u8; 32])
    ensures
        r@ == ed25519_pubkey_of(secret@),
{
    ed25519_dalek::SigningKey::from_bytes(secret).verifying_key().to_bytes()
}

/// Relies on ed25519_dalek's Signer::sign for SigningKey: signing never
/// fails, is deterministic in key and message, yields 64 bytes, and its
/// output is accepted by Ed25519 verification under the key's own public
/// key.
#[verifier::external_body]
fn sign_with(secret: &[u8; 32], message: &[u8]) -> (r: Vec<u8>)
    ensures
        r@ == ed25519_sig_of(secret@, message@),
        r@.len() == 64,
        ed25519_verifies(ed25519_pubkey_of(secret@), message@, r@),
{
    let signing_key = ed25519_dalek::SigningKey::from_bytes(secret);
    let signature = ed25519_dalek::Signer::sign(&signing_key, message);
    signature.to_bytes().to_vec()
}

/// Fail-closed verification of a detached signature: reconstructs a public
/// key and a signature from raw bytes and checks the signature over the
/// exact message bytes. Every failure — malformed key bytes, a signature
/// slice that is not 64 bytes, a wrong message, a wrong signer — yields
/// `false`; no input raises an error or panics.
///
/// Relies on ed25519_dalek's VerifyingKey::from_bytes, Signature::from_slice
/// and Verifier::verify: acceptance is a deterministic function of the raw
/// key, message and signature bytes; a key whose bytes decode to no curve
/// point and a signature slice of the wrong length are rejected; none of the
/// calls panics on any input.
#[verifier::external_body]
pub fn verify(public_key: &[u8; 32], message: &[u8], signature: &[u8]) -> (valid: bool)
    ensures
        valid == ed25519_verifies(public_key@, message@, signature@),
        signature@.len() != 64 ==> valid == false,
{
    let Ok(verifying_key) = ed25519_dalek::VerifyingKey::from_bytes(public_key) else {
        return false;
    };
    let Ok(sig) = ed25519_dalek::Signature::from_slice(signature) else {
        return false;
    };
    ed25519_dalek::Verifier::verify(&verifying_key, message, &sig).is_ok()
}

/// Derive the stable address bound to a public key: its SHA-256 digest.
pub fn derive_address(public_key: &[u8; 32]) -> (a: Address)
    ensures
        a@ == sha256_of(public_key@),
{
    Address::from_bytes(sha256(public_key.as_slice()))
}

/// A node's key material and its derived address. The signing key is the
/// Ed25519 secret key, exclusively owned by the node process and never
/// persisted by this core; the verifying key is the matching public key; the
/// address is the SHA-256 digest of the public key.
pub struct NodeIdentity {
    pub signing_key: [u8; 32],
    pub verifying_key: [u8; 32],
    pub address: Address,
}

impl NodeIdentity {
    /// The key pair is consistent and the address is bound to the public
    /// key. [`NodeIdentity::generate`] establishes this.
    pub open spec fn wf(&self) -> bool {
        &&& self.verifying_key@ == ed25519_pubkey_of(self.signing_key@)
        &&& self.address@ == sha256_of(self.verifying_key@)
    }

    /// Generate a fresh identity: a signing key from the system's secure
    /// random source, its public key, and the address derived from that
    /// public key. There is no error path.
    pub fn generate() -> (id: NodeIdentity)
        ensures
            id.wf(),
    {
        let signing_key = random_bytes_32();
        let verifying_key = derive_verifying_key(&signing_key);
        let address = derive_address(&verifying_key);
        NodeIdentity { signing_key, verifying_key, address }
    }

    /// Produce a detached signature over the exact message bytes with the
    /// node's signing key: deterministic per key and message, 64 bytes, and
    /// accepted by verification under the identity's own public key.
    pub fn sign(&self, message: &[u8]) -> (signature: Vec<u8>)
        ensures
            signature@ == ed25519_sig_of(self.signing_key@, message@),
            signature@.len() == 64,
            ed25519_verifies(ed25519_pubkey_of(self.signing_key@), message@, signature@),
            self.wf() ==> ed25519_verifies(self.verifying_key@, message@, signature@),
    {
        sign_with(&self.signing_key, message)
    }
}

/// For every message and every consistent identity, a signature made by
/// [`NodeIdentity::sign`] passes [`verify`] against that identity's own
/// public key: the flag returned here is always true.
pub fn verify_own_signature(id: &NodeIdentity, message: &[u8]) -> (valid: bool)
    ensures
        id.wf() ==> valid,
{
    let signature = id.sign(message);
    verify(&id.verifying_key, message, signature.as_slice())
}

} // verus!
