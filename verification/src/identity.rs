//! Local identity: a key pair and the peer identifier derived from its
//! public key.

use vstd::prelude::*;
use crate::bytes::{bytes_dup, bytes_eq};

verus! {

/// The peer identifier that `libp2p_identity::PeerId::from_public_key`
/// derives from a protobuf-encoded public key. It depends on the encoded
/// key alone.
pub uninterp spec fn peer_id_of(pubkey_encoding: Seq<u8>) -> Seq<u8>;

/// Whether `libp2p_identity::PublicKey::try_decode_protobuf` accepts the
/// bytes as a public-key encoding. It depends on the bytes alone.
pub uninterp spec fn key_decodes(pubkey_encoding: Seq<u8>) -> bool;

/// A peer identifier: the stable byte encoding of a remote or local
/// identity. Two identifiers denote the same peer exactly when their bytes
/// are equal.
#[derive(Debug)]
pub struct PeerId {
    pub bytes: Vec<u8>,
}

impl View for PeerId {
    type V = Seq<u8>;

    open spec fn view(&self) -> Seq<u8> {
        self.bytes@
    }
}

impl PeerId {
    /// Wrap raw identifier bytes.
    pub fn from_bytes(bytes: Vec<u8>) -> (r: PeerId)
        ensures
            r@ == bytes@,
    {
        PeerId { bytes }
    }

    /// Whether two identifiers denote the same peer.
    pub fn same(&self, other: &PeerId) -> (r: bool)
        ensures
            r == (self@ == other@),
    {
        bytes_eq(&self.bytes, &other.bytes)
    }

    /// An owned copy of this identifier.
    pub fn dup(&self) -> (r: PeerId)
        ensures
            r@ == self@,
    {
        PeerId { bytes: bytes_dup(&self.bytes) }
    }
}

/// A freshly generated key pair, as its protobuf encodings: the whole key
/// pair, then the public key alone. The keys are drawn from the process
/// entropy source, so nothing is promised of their value; `None` reports
/// that the encoding step failed.
///
/// Relies on `libp2p_identity::Keypair::generate_ed25519`, with
/// `Keypair::to_protobuf_encoding` and `PublicKey::encode_protobuf`
/// converting the two halves to bytes.
#[verifier::external_body]
fn generate_ed25519_encoded() -> (r: Option<(Vec<u8>, Vec<u8>)>)
{
    let kp = libp2p_identity::Keypair::generate_ed25519();
    let pk = kp.public().encode_protobuf();
    match kp.to_protobuf_encoding() {
        Ok(sk) => Some((sk, pk)),
        Err(_) => None,
    }
}

/// The identifier bytes that the given protobuf-encoded public key derives
/// to, or `None` exactly when the bytes are not a valid public-key
/// encoding.
///
/// Relies on `libp2p_identity::PublicKey::try_decode_protobuf`, which
/// accepts or rejects the bytes deterministically (`key_decodes`), and on
/// `libp2p_identity::PeerId::from_public_key`: the identifier is a
/// multihash of the key encoding and depends on it alone. `PeerId::to_bytes`
/// converts at the boundary.
#[verifier::external_body]
fn derive_peer_id_bytes(pubkey_encoding: &Vec<u8>) -> (r: Option<Vec<u8>>)
    ensures
        r is Some <==> key_decodes(pubkey_encoding@),
        r matches Some(b) ==> b@ == peer_id_of(pubkey_encoding@),
{
    match libp2p_identity::PublicKey::try_decode_protobuf(pubkey_encoding.as_slice()) {
        Ok(p) => Some(libp2p_identity::PeerId::from_public_key(&p).to_bytes()),
        Err(_) => None,
    }
}

/// The local identity: an encoded key pair, its public half, and the peer
/// identifier derived from the public half.
pub struct Identity {
    /// Protobuf encoding of the whole key pair (kept for the session
    /// handshake, never sent).
    pub keypair: Vec<u8>,
    /// Protobuf encoding of the public key, as exchanged during the
    /// handshake.
    pub public_key: Vec<u8>,
    /// The identifier derived from `public_key`.
    pub peer: PeerId,
}

impl Identity {
    /// The identifier is exactly the one the public key derives to.
    pub open spec fn wf(&self) -> bool {
        self.peer@ == peer_id_of(self.public_key@)
    }

    /// Generate a fresh local identity. `None` only when the entropy or
    /// encoding step of the key-pair source fails, which is startup-fatal
    /// for a caller.
    pub fn generate() -> (r: Option<Identity>)
        ensures
            r matches Some(id) ==> id.wf(),
    {
        let (keypair, public_key) = match generate_ed25519_encoded() {
            Some(pair) => pair,
            None => {
                return None;
            },
        };
        match derive_peer_id_bytes(&public_key) {
            Some(b) => Some(Identity { keypair, public_key, peer: (PeerId { bytes: b }) }),
            None => None,
        }
    }
}

/// Derive the identifier a public-key encoding stands for, or `None`
/// exactly when the bytes do not decode to a public key.
pub fn derive_remote_identity(pubkey_encoding: &Vec<u8>) -> (r: Option<PeerId>)
    ensures
        r is Some <==> key_decodes(pubkey_encoding@),
        r matches Some(p) ==> p@ == peer_id_of(pubkey_encoding@),
{
    match derive_peer_id_bytes(pubkey_encoding) {
        Some(b) => Some(PeerId { bytes: b }),
        None => None,
    }
}

/// Whether the given public-key encoding proves the claimed identifier:
/// true exactly when the key decodes and derives to exactly the claimed
/// bytes.
pub fn key_proves_identity(pubkey_encoding: &Vec<u8>, claimed: &PeerId) -> (r: bool)
    ensures
        r == (key_decodes(pubkey_encoding@) && peer_id_of(pubkey_encoding@) == claimed@),
{
    match derive_remote_identity(pubkey_encoding) {
        Some(derived) => derived.same(claimed),
        None => false,
    }
}

} // verus!
