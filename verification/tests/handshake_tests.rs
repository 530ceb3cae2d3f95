use floodchat::{establish, select_protocol, HandshakeError, PeerId};

fn protos(names: &[&[u8]]) -> Vec<Vec<u8>> {
    names.iter().map(|n| n.to_vec()).collect()
}

fn peer(b: &[u8]) -> PeerId {
    PeerId::from_bytes(b.to_vec())
}

#[test]
fn select_picks_our_first_supported_protocol() {
    let ours = protos(&[b"/noise", b"/tls/1.0.0"]);
    let theirs = protos(&[b"/tls/1.0.0", b"/noise"]);
    let picked = select_protocol(&ours, &theirs).unwrap();
    assert_eq!(picked, b"/noise".to_vec());
}

#[test]
fn select_skips_unsupported_protocols() {
    let ours = protos(&[b"/secio", b"/noise"]);
    let theirs = protos(&[b"/noise"]);
    let picked = select_protocol(&ours, &theirs).unwrap();
    assert_eq!(picked, b"/noise".to_vec());
}

#[test]
fn select_fails_without_a_common_protocol() {
    let ours = protos(&[b"/noise"]);
    let theirs = protos(&[b"/tls/1.0.0"]);
    assert!(select_protocol(&ours, &theirs).is_none());
}

#[test]
fn establish_agrees_on_security_and_muxer() {
    let plan = establish(
        &protos(&[b"/noise"]),
        &protos(&[b"/noise"]),
        &protos(&[b"/mplex/6.7.0", b"/yamux/1.0.0"]),
        &protos(&[b"/yamux/1.0.0"]),
        &peer(b"remote"),
        &peer(b"remote"),
    )
    .unwrap();
    assert_eq!(plan.remote.bytes, b"remote".to_vec());
    assert_eq!(plan.security, b"/noise".to_vec());
    assert_eq!(plan.muxer, b"/yamux/1.0.0".to_vec());
}

#[test]
fn negotiation_mismatch_fails_before_identity() {
    let r = establish(
        &protos(&[b"/noise"]),
        &protos(&[b"/tls/1.0.0"]),
        &protos(&[b"/yamux/1.0.0"]),
        &protos(&[b"/yamux/1.0.0"]),
        &peer(b"remote"),
        &peer(b"remote"),
    );
    assert_eq!(r.unwrap_err(), HandshakeError::NegotiationFailed);
}

#[test]
fn muxer_mismatch_is_a_negotiation_failure() {
    let r = establish(
        &protos(&[b"/noise"]),
        &protos(&[b"/noise"]),
        &protos(&[b"/yamux/1.0.0"]),
        &protos(&[b"/mplex/6.7.0"]),
        &peer(b"remote"),
        &peer(b"remote"),
    );
    assert_eq!(r.unwrap_err(), HandshakeError::NegotiationFailed);
}

#[test]
fn forged_identity_fails_the_handshake() {
    let r = establish(
        &protos(&[b"/noise"]),
        &protos(&[b"/noise"]),
        &protos(&[b"/yamux/1.0.0"]),
        &protos(&[b"/yamux/1.0.0"]),
        &peer(b"claimed"),
        &peer(b"actually-someone-else"),
    );
    assert_eq!(r.unwrap_err(), HandshakeError::IdentityMismatch);
}
