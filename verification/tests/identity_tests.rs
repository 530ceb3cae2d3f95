use floodchat::{bytes_eq, derive_remote_identity, key_proves_identity, Identity};

#[test]
fn generate_produces_a_derivable_identity() {
    let id = Identity::generate().expect("key generation must succeed");
    // The stored identifier is exactly what the public key derives to.
    let derived = derive_remote_identity(&id.public_key).expect("own key must decode");
    assert_eq!(derived.bytes, id.peer.bytes);
    // Derivation is a function of the key encoding alone.
    let again = derive_remote_identity(&id.public_key).unwrap();
    assert_eq!(again.bytes, derived.bytes);
    // The identifier is a digest of the key, not the key bytes themselves.
    assert_ne!(id.peer.bytes, id.public_key);
    assert!(!id.peer.bytes.is_empty());
}

#[test]
fn two_identities_do_not_collide() {
    let a = Identity::generate().unwrap();
    let b = Identity::generate().unwrap();
    assert!(!bytes_eq(&a.peer.bytes, &b.peer.bytes));
}

#[test]
fn key_proves_only_its_own_identity() {
    let a = Identity::generate().unwrap();
    let b = Identity::generate().unwrap();
    assert!(key_proves_identity(&a.public_key, &a.peer));
    assert!(!key_proves_identity(&a.public_key, &b.peer));
}

#[test]
fn garbage_bytes_are_not_a_public_key() {
    let garbage = vec![0xffu8; 5];
    assert!(derive_remote_identity(&garbage).is_none());
}
