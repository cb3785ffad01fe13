use messenger::identity::{
    decode_plain, decrypt, encode_plain, encrypt, generate_raw_keypair, load_or_generate_keypair,
    plan_identity, IdentityError, IdentityPlan, RawKeypair,
};
use messenger::paths::{
    config_dir, encrypted_path, join, plain_path, snapshot_path, snapshot_temp_path,
};

fn small_pair() -> RawKeypair {
    RawKeypair {
        public_key: vec![1, 2, 3],
        signing_key: vec![4, 5],
    }
}

#[test]
fn plain_roundtrip_generates_then_loads_same_keypair() {
    let first = load_or_generate_keypair(None, None, None, false).unwrap();
    let file = first.save.expect("a new pair is saved");
    let second = load_or_generate_keypair(Some(&file), None, None, false).unwrap();
    assert!(second.save.is_none());
    assert_eq!(
        first.pair.public_key, second.pair.public_key,
        "public key must survive a save/load round trip unchanged"
    );
    assert_eq!(
        first.pair.signing_key, second.pair.signing_key,
        "signing key must survive a save/load round trip unchanged"
    );
}

#[test]
fn two_different_dirs_get_different_keypairs() {
    let a = load_or_generate_keypair(None, None, None, false).unwrap();
    let b = load_or_generate_keypair(None, None, None, false).unwrap();
    assert_ne!(
        a.pair.public_key, b.pair.public_key,
        "independent config dirs must not somehow share an identity"
    );
}

#[test]
fn passphrase_supplied_but_only_plain_file_exists_is_an_error() {
    let first = load_or_generate_keypair(None, None, None, false).unwrap();
    let file = first.save.unwrap();
    for enabled in [false, true] {
        let result = load_or_generate_keypair(Some(&file), None, Some("hunter2"), enabled);
        assert_eq!(
            result.err(),
            Some(IdentityError::PlainFileExists),
            "mode mismatch (plain file present, passphrase supplied) must not be silently resolved"
        );
    }
}

#[test]
fn corrupt_plain_file_is_an_error_not_a_silent_regeneration() {
    let result =
        load_or_generate_keypair(Some(b"not a valid bincode identity file"), None, None, false);
    assert_eq!(
        result.err(),
        Some(IdentityError::Corrupt),
        "a corrupt identity file must fail loudly, not be treated as absent (that would \
         silently mint a new NodeID)"
    );
}

#[test]
fn encrypted_file_without_passphrase_is_an_error() {
    let result = load_or_generate_keypair(None, Some(&[0; 10]), None, true);
    assert_eq!(result.err(), Some(IdentityError::PassphraseMissing));
}

#[test]
fn each_situation_has_its_plan() {
    assert_eq!(plan_identity(false, false, false), IdentityPlan::GeneratePlain);
    assert_eq!(plan_identity(false, false, true), IdentityPlan::LoadPlain);
    assert_eq!(plan_identity(false, true, true), IdentityPlan::LoadPlain);
    assert_eq!(
        plan_identity(false, true, false),
        IdentityPlan::Refuse(IdentityError::PassphraseMissing)
    );
    assert_eq!(plan_identity(true, false, false), IdentityPlan::GenerateEncrypted);
    assert_eq!(plan_identity(true, true, false), IdentityPlan::LoadEncrypted);
    assert_eq!(plan_identity(true, true, true), IdentityPlan::LoadEncrypted);
    assert_eq!(
        plan_identity(true, false, true),
        IdentityPlan::Refuse(IdentityError::PlainFileExists)
    );
}

#[test]
fn plain_file_is_two_counted_keys() {
    let bytes = encode_plain(&small_pair()).unwrap();
    assert_eq!(
        bytes,
        vec![3, 0, 0, 0, 0, 0, 0, 0, 1, 2, 3, 2, 0, 0, 0, 0, 0, 0, 0, 4, 5]
    );
    let back = decode_plain(&bytes).unwrap();
    assert_eq!(back.public_key, vec![1, 2, 3]);
    assert_eq!(back.signing_key, vec![4, 5]);
    for n in 0..bytes.len() {
        assert!(decode_plain(&bytes[..n]).is_err());
    }
}

#[test]
fn generated_keys_have_the_right_lengths() {
    let pair = generate_raw_keypair();
    assert_eq!(pair.public_key.len(), 2592);
    assert_eq!(pair.signing_key.len(), 4896);
}

/// An encrypted document with a cheap key derivation.
fn document(key: &[u8], passphrase: &str) -> Vec<u8> {
    let algorithm = pkcs8::AlgorithmIdentifierRef {
        oid: pkcs8::ObjectIdentifier::new_unwrap("1.3.6.1.4.1.0.9999.1.1"),
        parameters: None,
    };
    let parameters =
        pkcs8::pkcs5::pbes2::Parameters::pbkdf2_sha256_aes256cbc(1, &[7; 16], &[8; 16]).unwrap();
    pkcs8::PrivateKeyInfo::new(algorithm, key)
        .encrypt_with_params(parameters, passphrase)
        .unwrap()
        .as_bytes()
        .to_vec()
}

#[test]
fn passphrase_opens_the_document_and_nothing_else_does() {
    let mut sealed = vec![3, 0, 0, 0, 1, 2, 3];
    sealed.extend(document(&[4, 5], "hunter2"));
    let back = decrypt(&sealed, "hunter2", true).unwrap();
    assert_eq!(back.public_key, vec![1, 2, 3]);
    assert_eq!(back.signing_key, vec![4, 5]);
    assert_eq!(
        decrypt(&sealed, "hunter3", true).err(),
        Some(IdentityError::DecryptionFailed)
    );
    assert_eq!(
        decrypt(&sealed[..sealed.len() - 1], "hunter2", true).err(),
        Some(IdentityError::DecryptionFailed)
    );
    for n in [0, 3, 6, 7, 20] {
        assert_eq!(
            decrypt(&sealed[..n], "hunter2", true).err(),
            Some(IdentityError::DecryptionFailed)
        );
    }
    let loaded = load_or_generate_keypair(None, Some(&sealed), Some("hunter2"), true).unwrap();
    assert!(loaded.save.is_none());
    assert_eq!(loaded.pair.signing_key, vec![4, 5]);
}

#[test]
fn scrypt_parameters_that_cannot_be_met_are_refused() {
    // The parameters end with cost 16, block size 1 and parallelization 1,
    // each an integer of one byte.
    let parameters = pkcs8::pkcs5::pbes2::Parameters::scrypt_aes256cbc(
        pkcs8::pkcs5::scrypt::Params::new(4, 1, 1, 32).unwrap(),
        &[7; 16],
        &[8; 16],
    )
    .unwrap();
    let algorithm = pkcs8::AlgorithmIdentifierRef {
        oid: pkcs8::ObjectIdentifier::new_unwrap("1.3.6.1.4.1.0.9999.1.1"),
        parameters: None,
    };
    let document = pkcs8::PrivateKeyInfo::new(algorithm, &[4, 5])
        .encrypt_with_params(parameters, "hunter2")
        .unwrap()
        .as_bytes()
        .to_vec();
    let mut sealed = vec![3, 0, 0, 0, 1, 2, 3];
    sealed.extend(document);
    assert_eq!(decrypt(&sealed, "hunter2", true).unwrap().signing_key, vec![4, 5]);
    let wanted = [2, 1, 16, 2, 1, 1, 2, 1, 1];
    let at = sealed.windows(9).position(|w| w == wanted).unwrap();
    sealed[at + 2] = 0;
    assert_eq!(
        decrypt(&sealed, "hunter2", true).err(),
        Some(IdentityError::DecryptionFailed)
    );
}

#[test]
fn encrypted_storage_can_be_disabled() {
    assert_eq!(
        encrypt(&small_pair(), "x", false).err(),
        Some(IdentityError::EncryptionDisabled)
    );
    assert_eq!(decrypt(&[], "x", false).err(), Some(IdentityError::EncryptionDisabled));
    assert_eq!(
        load_or_generate_keypair(None, None, Some("x"), false).err(),
        Some(IdentityError::EncryptionDisabled)
    );
}

#[test]
fn files_live_in_the_config_directory() {
    assert_eq!(plain_path("/home/a"), "/home/a/identity.key");
    assert_eq!(encrypted_path("/home/a/"), "/home/a/identity.pk8");
    assert_eq!(snapshot_path(""), "dht_snapshot.bin");
    assert_eq!(snapshot_temp_path("x"), "x/dht_snapshot.tmp");
    assert_eq!(join("é", "f"), "é/f");
    assert_eq!(config_dir(Some("/o"), Some("/p")).as_deref(), Some("/o"));
    assert_eq!(config_dir(None, Some("/p")).as_deref(), Some("/p/primus"));
    assert_eq!(config_dir(None, None), None);
}

#[test]
fn identity_errors_have_words() {
    let text = |e: IdentityError| e.message("/c/identity.key", "/c/identity.pk8");
    assert_eq!(
        text(IdentityError::PlainFileExists),
        "an unencrypted identity file already exists at /c/identity.key but \
         PRIMUS_KEY_PASSPHRASE was set; refusing to guess whether to load it as-is (ignoring the \
         passphrase) or re-encrypt it in place. Either unset PRIMUS_KEY_PASSPHRASE to keep using \
         the plain file, or move /c/identity.key aside and restart with the passphrase set to \
         generate a fresh encrypted identity (this will change the node's identity/NodeID)."
    );
    assert_eq!(
        text(IdentityError::PassphraseMissing),
        "an encrypted identity file exists at /c/identity.pk8 but no passphrase was supplied. \
         Set PRIMUS_KEY_PASSPHRASE and restart."
    );
    assert_eq!(
        text(IdentityError::EncryptionDisabled),
        "passphrase-encrypted identity storage requires building with \
         `--features encrypted-identity` (pulls in the `pkcs8` crate); this build does not have it \
         compiled in"
    );
    assert_eq!(
        text(IdentityError::Corrupt),
        "failed to parse identity file /c/identity.key — corrupt or from an incompatible version?"
    );
    assert_eq!(
        text(IdentityError::DecryptionFailed),
        "PKCS#8 decryption failed — wrong passphrase, or a corrupted file"
    );
    assert_eq!(text(IdentityError::EncryptionFailed), "PKCS#8 encryption failed");
}
