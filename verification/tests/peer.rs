use messenger::identity::generate_raw_keypair;
use messenger::peer::{
    find_addr, PeerError, PrimusNR, PUBLIC_KEY_LEN, SIGNATURE_LEN, SIGNING_KEY_LEN,
};
use sha3::Digest;

#[test]
fn node_id_is_deterministic() {
    let public_key = vec![7u8; PUBLIC_KEY_LEN];
    let addr = "127.0.0.1:9000".to_string();
    let nr = PrimusNR {
        public_key: public_key.clone(),
        addr: addr.clone(),
        signature: vec![],
    };
    let nr2 = PrimusNR {
        public_key,
        addr,
        signature: vec![],
    };
    assert_eq!(nr.node_id(), nr2.node_id());
}

#[test]
fn verify_rejects_malformed_key_lengths() {
    let nr = PrimusNR {
        public_key: vec![1, 2, 3],
        addr: "127.0.0.1:9000".to_string(),
        signature: vec![4, 5, 6],
    };
    assert!(!nr.verify());
}

#[test]
fn node_id_is_the_digest_of_the_public_key() {
    let nr = PrimusNR {
        public_key: vec![7u8; 100],
        addr: "a".to_string(),
        signature: vec![],
    };
    let expected: [u8; 32] = sha3::Sha3_256::digest([7u8; 100]).into();
    assert_eq!(nr.node_id(), expected);
}

#[test]
fn own_record_verifies_and_a_changed_one_does_not() {
    let pair = generate_raw_keypair();
    let nr = PrimusNR::new(
        "127.0.0.1:9000".to_string(),
        &pair.public_key,
        &pair.signing_key,
    )
    .unwrap();
    assert_eq!(nr.signature.len(), SIGNATURE_LEN);
    assert_eq!(nr.addr(), "127.0.0.1:9000");
    assert!(nr.verify());

    let mut moved = nr.clone();
    moved.addr = "127.0.0.1:9001".to_string();
    assert!(!moved.verify());
    assert_eq!(moved.node_id(), nr.node_id());

    let mut damaged = nr.clone();
    damaged.signature[100] ^= 1;
    assert!(!damaged.verify());

    let other = generate_raw_keypair();
    let mut forged = nr.clone();
    forged.public_key = other.public_key;
    assert!(!forged.verify());
}

#[test]
fn signing_key_of_the_wrong_length_is_refused() {
    let result = PrimusNR::new("a".to_string(), &[1], &[0; 10]);
    let error = result.err().unwrap();
    assert_eq!(error, PeerError::SigningKeyLength { got: 10 });
    assert_eq!(error.message(), "ML-DSA signing key must be 4896 bytes, got 10");
    assert_eq!(SIGNING_KEY_LEN, 4896);
}

#[test]
fn malformed_signing_key_is_refused() {
    let all_ones = PrimusNR::new("a".to_string(), &[1], &[0xFF; SIGNING_KEY_LEN]);
    let error = all_ones.err().unwrap();
    assert_eq!(error, PeerError::MalformedSigningKey);
    assert_eq!(error.message(), "ML-DSA signing key is malformed");
    // A single group that is out of range, first and last.
    for at in [128, 1567] {
        let mut key = generate_raw_keypair().signing_key;
        key[at] = 0b1010_0000 | 0b101;
        let result = PrimusNR::new("a".to_string(), &[1], &key);
        assert_eq!(result.err(), Some(PeerError::MalformedSigningKey));
    }
}

#[test]
fn signed_bytes_are_address_then_key() {
    assert_eq!(
        PrimusNR::signing_bytes(&"ab".to_string(), &[1, 2]),
        vec![b'a', b'b', 1, 2]
    );
}

#[test]
fn only_an_exact_identifier_has_an_address() {
    let make = |k: u8, addr: &str| PrimusNR {
        public_key: vec![k],
        addr: addr.to_string(),
        signature: vec![],
    };
    let records = vec![make(1, "x:1"), make(2, "y:2"), make(2, "z:3")];
    assert_eq!(find_addr(&records, &make(2, "").node_id()).as_deref(), Some("y:2"));
    assert_eq!(find_addr(&records, &[0; 32]), None);
}
