//! Session negotiation: agreeing on a security scheme and a stream
//! multiplexer, then checking that the remote's key proves the identity it
//! claims. Any stage failure discards the attempt; nothing is retried at
//! this layer.

use vstd::prelude::*;
use crate::bytes::{bytes_dup, bytes_eq};
use crate::identity::{key_decodes, key_proves_identity, peer_id_of, PeerId};

verus! {

/// Why a connection attempt was discarded.
#[derive(PartialEq, Eq, Structural, Debug)]
pub enum HandshakeError {
    /// The two sides support no common security or multiplexer protocol.
    NegotiationFailed,
    /// The remote could not prove the identity it claimed.
    IdentityMismatch,
}

/// The values of a list of protocol identifiers.
pub open spec fn protos_view(ps: Seq<Vec<u8>>) -> Seq<Seq<u8>> {
    ps.map_values(|p: Vec<u8>| p@)
}

/// Whether a protocol identifier occurs in a list.
pub open spec fn protos_contain(ps: Seq<Seq<u8>>, p: Seq<u8>) -> bool {
    exists|i: int| 0 <= i < ps.len() && ps[i] == p
}

/// Whether the two sides share any protocol.
pub open spec fn have_common(ours: Seq<Seq<u8>>, theirs: Seq<Seq<u8>>) -> bool {
    exists|i: int| 0 <= i < ours.len() && protos_contain(theirs, ours[i])
}

/// `p` is the first of our protocols that the remote also supports.
pub open spec fn first_common(ours: Seq<Seq<u8>>, theirs: Seq<Seq<u8>>, p: Seq<u8>) -> bool {
    exists|i: int|
        0 <= i < ours.len() && ours[i] == p && protos_contain(theirs, p) && (forall|j: int|
            0 <= j < i ==> !protos_contain(theirs, #[trigger] ours[j]))
}

/// Whether a protocol list contains the given identifier.
pub fn protos_have(ps: &Vec<Vec<u8>>, p: &Vec<u8>) -> (r: bool)
    ensures
        r == protos_contain(protos_view(ps@), p@),
{
    let mut i: usize = 0;
    while i < ps.len()
        invariant
            i <= ps.len(),
            forall|j: int| 0 <= j < i ==> protos_view(ps@)[j] != p@,
        decreases ps.len() - i,
    {
        if bytes_eq(&ps[i], p) {
            assert(protos_view(ps@)[i as int] == p@);
            return true;
        }
        i += 1;
    }
    false
}

/// Pick the first of our protocols that the remote also supports; `None`
/// exactly when the two sides share none (a negotiation mismatch).
pub fn select_protocol(ours: &Vec<Vec<u8>>, theirs: &Vec<Vec<u8>>) -> (r: Option<Vec<u8>>)
    ensures
        match r {
            Some(p) => first_common(protos_view(ours@), protos_view(theirs@), p@),
            None => !have_common(protos_view(ours@), protos_view(theirs@)),
        },
{
    let mut i: usize = 0;
    while i < ours.len()
        invariant
            i <= ours.len(),
            forall|j: int|
                0 <= j < i ==> !protos_contain(protos_view(theirs@), #[trigger] protos_view(
                    ours@,
                )[j]),
        decreases ours.len() - i,
    {
        if protos_have(theirs, &ours[i]) {
            let p = bytes_dup(&ours[i]);
            assert(protos_view(ours@)[i as int] == p@);
            return Some(p);
        }
        i += 1;
    }
    None
}

/// A negotiated session with one authenticated remote peer: which
/// identity it proved, and which security and multiplexer schemes the two
/// sides agreed on.
#[derive(Debug)]
pub struct SessionPlan {
    pub remote: PeerId,
    pub security: Vec<u8>,
    pub muxer: Vec<u8>,
}

impl SessionPlan {
    /// An owned copy of this plan.
    pub fn dup(&self) -> (r: SessionPlan)
        ensures
            r.remote@ == self.remote@,
            r.security@ == self.security@,
            r.muxer@ == self.muxer@,
    {
        SessionPlan {
            remote: self.remote.dup(),
            security: bytes_dup(&self.security),
            muxer: bytes_dup(&self.muxer),
        }
    }
}

/// Run the negotiation stages over already-exchanged plain values: our and
/// their supported security and multiplexer identifiers, the identity the
/// remote claims, and the identity its key actually proved. Succeeds
/// exactly when both negotiations find a common protocol and the proven
/// identity is the claimed one.
pub fn establish(
    ours_security: &Vec<Vec<u8>>,
    theirs_security: &Vec<Vec<u8>>,
    ours_muxers: &Vec<Vec<u8>>,
    theirs_muxers: &Vec<Vec<u8>>,
    claimed: &PeerId,
    proven: &PeerId,
) -> (r: Result<SessionPlan, HandshakeError>)
    ensures
        r is Ok <==> have_common(protos_view(ours_security@), protos_view(theirs_security@))
            && have_common(protos_view(ours_muxers@), protos_view(theirs_muxers@)) && claimed@
            == proven@,
        r matches Ok(plan) ==> plan.remote@ == claimed@ && first_common(
            protos_view(ours_security@),
            protos_view(theirs_security@),
            plan.security@,
        ) && first_common(protos_view(ours_muxers@), protos_view(theirs_muxers@), plan.muxer@),
        r matches Err(e) ==> (e == HandshakeError::NegotiationFailed <==> !(have_common(
            protos_view(ours_security@),
            protos_view(theirs_security@),
        ) && have_common(protos_view(ours_muxers@), protos_view(theirs_muxers@)))),
{
    let security = match select_protocol(ours_security, theirs_security) {
        Some(p) => p,
        None => {
            return Err(HandshakeError::NegotiationFailed);
        },
    };
    let muxer = match select_protocol(ours_muxers, theirs_muxers) {
        Some(p) => p,
        None => {
            return Err(HandshakeError::NegotiationFailed);
        },
    };
    if claimed.same(proven) {
        Ok(SessionPlan { remote: claimed.dup(), security, muxer })
    } else {
        Err(HandshakeError::IdentityMismatch)
    }
}

/// Handshake isolation: a connection attempt whose proven identity is not
/// the claimed one fails, whatever protocols the two sides support.
pub proof fn lemma_forged_identity_fails(
    ours_security: Seq<Seq<u8>>,
    theirs_security: Seq<Seq<u8>>,
    ours_muxers: Seq<Seq<u8>>,
    theirs_muxers: Seq<Seq<u8>>,
    claimed: Seq<u8>,
    proven: Seq<u8>,
    r: Result<SessionPlan, HandshakeError>,
)
    requires
        claimed != proven,
        r is Ok <==> have_common(ours_security, theirs_security) && have_common(
            ours_muxers,
            theirs_muxers,
        ) && claimed == proven,
    ensures
        r is Err,
{
}

/// Run the negotiation stages against the remote's actual public-key
/// encoding: succeeds exactly when both negotiations find a common
/// protocol and the key decodes and derives exactly the claimed
/// identifier, so a forged or mismatched key can never yield a session,
/// and a genuine key owed a session always gets one.
pub fn establish_with_key(
    ours_security: &Vec<Vec<u8>>,
    theirs_security: &Vec<Vec<u8>>,
    ours_muxers: &Vec<Vec<u8>>,
    theirs_muxers: &Vec<Vec<u8>>,
    claimed: &PeerId,
    remote_key: &Vec<u8>,
) -> (r: Result<SessionPlan, HandshakeError>)
    ensures
        r is Ok <==> have_common(protos_view(ours_security@), protos_view(theirs_security@))
            && have_common(protos_view(ours_muxers@), protos_view(theirs_muxers@)) && key_decodes(
            remote_key@,
        ) && peer_id_of(remote_key@) == claimed@,
        r matches Ok(plan) ==> plan.remote@ == claimed@ && first_common(
            protos_view(ours_security@),
            protos_view(theirs_security@),
            plan.security@,
        ) && first_common(protos_view(ours_muxers@), protos_view(theirs_muxers@), plan.muxer@),
        r matches Err(e) ==> (e == HandshakeError::NegotiationFailed <==> !(have_common(
            protos_view(ours_security@),
            protos_view(theirs_security@),
        ) && have_common(protos_view(ours_muxers@), protos_view(theirs_muxers@)))),
{
    let security = match select_protocol(ours_security, theirs_security) {
        Some(p) => p,
        None => {
            return Err(HandshakeError::NegotiationFailed);
        },
    };
    let muxer = match select_protocol(ours_muxers, theirs_muxers) {
        Some(p) => p,
        None => {
            return Err(HandshakeError::NegotiationFailed);
        },
    };
    if key_proves_identity(remote_key, claimed) {
        Ok(SessionPlan { remote: claimed.dup(), security, muxer })
    } else {
        Err(HandshakeError::IdentityMismatch)
    }
}

} // verus!
