use p2p_chat::identity::{
    decode_identity, load_or_create_identity, new_identity, IdentityError, IDENTITY_PATH,
    PEER_ID_PREFIX,
};

#[test]
fn identity_file() {
    assert_eq!(IDENTITY_PATH, "identity.key");
}

#[test]
fn missing_key_is_created() {
    let identity = load_or_create_identity(None).unwrap();
    assert!(identity.fresh);
    let keypair = libp2p::identity::Keypair::from_protobuf_encoding(&identity.key).unwrap();
    assert_eq!(
        identity.peer_id,
        libp2p::PeerId::from(keypair.public()).to_string()
    );
    assert_eq!(identity.key.len(), 68);
    assert_eq!(identity.key[..4], [8, 1, 18, 64]);
    assert_eq!(identity.peer_id.len(), 52);
    assert!(identity.peer_id.starts_with("12D3KooW"));
}

#[test]
fn peer_ids_have_one_form() {
    assert_eq!(PEER_ID_PREFIX, "12D3KooW");
    for byte in 0..=255u8 {
        let keypair = libp2p::identity::Keypair::ed25519_from_bytes([byte; 32]).unwrap();
        let key = keypair.to_protobuf_encoding().unwrap();
        let identity = decode_identity(key, false).unwrap();
        assert_eq!(identity.peer_id.len(), 52);
        assert!(identity.peer_id.is_ascii());
        assert!(identity.peer_id.starts_with(PEER_ID_PREFIX));
    }
}

#[test]
fn only_ed25519_keys_are_taken() {
    // An encoded key of each of the other types, and of one that there is not.
    for key_type in [0, 2, 3, 4] {
        let mut key = load_or_create_identity(None).unwrap().key;
        key[1] = key_type;
        assert_eq!(
            decode_identity(key, false),
            Err(IdentityError::Undecodable)
        );
    }
    // A secp256k1 key as it is stored where that type is in use.
    let mut secp256k1 = vec![8, 2, 18, 32];
    secp256k1.extend([1u8; 32]);
    assert_eq!(
        decode_identity(secp256k1, false),
        Err(IdentityError::Undecodable)
    );
}

#[test]
fn created_keys_differ() {
    let first = load_or_create_identity(None).unwrap();
    let second = load_or_create_identity(None).unwrap();
    assert_ne!(first.key, second.key);
    assert_ne!(first.peer_id, second.peer_id);
}

#[test]
fn stored_key_is_loaded() {
    let created = load_or_create_identity(None).unwrap();
    let loaded = load_or_create_identity(Some(created.key.clone())).unwrap();
    assert!(!loaded.fresh);
    assert_eq!(loaded.key, created.key);
    assert_eq!(loaded.peer_id, created.peer_id);
}

#[test]
fn known_key_has_its_peer_id() {
    // The key whose secret half is 32 times the byte 1.
    let keypair = libp2p::identity::Keypair::ed25519_from_bytes([1u8; 32]).unwrap();
    let key = keypair.to_protobuf_encoding().unwrap();
    let identity = decode_identity(key, true).unwrap();
    assert!(identity.fresh);
    assert_eq!(
        identity.peer_id,
        libp2p::PeerId::from(keypair.public()).to_string()
    );
}

#[test]
fn garbage_is_no_key() {
    assert_eq!(
        load_or_create_identity(Some(vec![1, 2, 3])),
        Err(IdentityError::Undecodable)
    );
    assert_eq!(
        load_or_create_identity(Some(Vec::new())),
        Err(IdentityError::Undecodable)
    );
    assert_eq!(
        decode_identity(vec![0xff], false),
        Err(IdentityError::Undecodable)
    );
}

#[test]
fn key_that_was_not_generated_gives_no_identity() {
    assert_eq!(new_identity(None), Err(IdentityError::Unencodable));
    assert_eq!(
        new_identity(Some(vec![7])),
        Err(IdentityError::Undecodable)
    );
    let key = load_or_create_identity(None).unwrap().key;
    let identity = new_identity(Some(key.clone())).unwrap();
    assert!(identity.fresh);
    assert_eq!(identity.key, key);
}
