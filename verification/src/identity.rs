//! The node's persistent key pair.
//!
//! The pair is kept either in a plain file or in a passphrase-encrypted
//! PKCS#8 document. Reading and writing files happens elsewhere: here is
//! which file is used, what stands in it, and when the situation is refused
//! instead of guessed at.
use ml_dsa::KeyGen;
use pkcs8::der::Decode;
use pkcs8::pkcs5::pbes2::Kdf;
use vstd::prelude::*;
use vstd::string::*;

use crate::bytes::{
    append_bytes, append_le_u32, byte_range_values, copy_bytes, le_bytes, le_round_trip, le_value,
    le_value_bound, le_value_round_trip, read_le_u32,
};
use crate::envelope::counted;
use crate::peer::matching_keys;

verus! {

/// Environment variable with the passphrase of encrypted storage.
pub const PASSPHRASE_ENV_VAR: &'static str = "PRIMUS_KEY_PASSPHRASE";

/// Environment variable that overrides the configuration directory.
pub const CONFIG_DIR_ENV_VAR: &'static str = "PRIMUS_CONFIG_DIR";

/// Object identifier that marks the key inside a PKCS#8 document: a
/// private-use placeholder.
pub const ALGORITHM_OID: &'static str = "1.3.6.1.4.1.0.9999.1.1";

/// Longest signing key, in bytes, whose encryption is promised to succeed.
pub const MAX_SEALED_KEY: usize = 1048576;

/// A raw ML-DSA-87 key pair.
pub struct RawKeypair {
    pub public_key: Vec<u8>,
    pub signing_key: Vec<u8>,
}

/// What a `RawKeypair` holds, as mathematical values.
#[verifier::ext_equal]
pub struct KeypairView {
    pub public_key: Seq<u8>,
    pub signing_key: Seq<u8>,
}

impl View for RawKeypair {
    type V = KeypairView;

    open spec fn view(&self) -> KeypairView {
        KeypairView { public_key: self.public_key@, signing_key: self.signing_key@ }
    }
}

/// Why there is no identity to use.
#[derive(Clone, Copy, Debug, PartialEq, Eq, Structural)]
pub enum IdentityError {
    /// A passphrase was given, but only an unencrypted file exists.
    PlainFileExists,
    /// Only an encrypted file exists, but no passphrase was given.
    PassphraseMissing,
    /// Encrypted storage was asked for and is not available.
    EncryptionDisabled,
    /// The unencrypted file does not hold a key pair.
    Corrupt,
    /// Wrong passphrase, or a truncated or corrupted file. Which of them is
    /// not told, so that a wrong guess learns nothing of the file.
    DecryptionFailed,
    /// The document could not be encrypted.
    EncryptionFailed,
}

impl IdentityError {
    /// The error in words, with the paths of the two identity files.
    pub open spec fn text(self, plain: Seq<char>, encrypted: Seq<char>) -> Seq<char> {
        match self {
            IdentityError::PlainFileExists => "an unencrypted identity file already exists at "@
                + plain + " but "@ + PASSPHRASE_ENV_VAR@
                + " was set; refusing to guess whether to load it as-is (ignoring the passphrase) or re-encrypt it in place. Either unset "@
                + PASSPHRASE_ENV_VAR@ + " to keep using the plain file, or move "@ + plain
                + " aside and restart with the passphrase set to generate a fresh encrypted identity (this will change the node's identity/NodeID)."@,
            IdentityError::PassphraseMissing => "an encrypted identity file exists at "@ + encrypted
                + " but no passphrase was supplied. Set "@ + PASSPHRASE_ENV_VAR@ + " and restart."@,
            IdentityError::EncryptionDisabled =>
                "passphrase-encrypted identity storage requires building with `--features encrypted-identity` (pulls in the `pkcs8` crate); this build does not have it compiled in"@,
            IdentityError::Corrupt => "failed to parse identity file "@ + plain
                + " — corrupt or from an incompatible version?"@,
            IdentityError::DecryptionFailed =>
                "PKCS#8 decryption failed — wrong passphrase, or a corrupted file"@,
            IdentityError::EncryptionFailed => "PKCS#8 encryption failed"@,
        }
    }

    /// The error in words, with the paths of the two identity files.
    pub fn message(&self, plain: &str, encrypted: &str) -> (out: String)
        ensures
            out@ == self.text(plain@, encrypted@),
    {
        match self {
            IdentityError::PlainFileExists => {
                let mut out = String::from_str("an unencrypted identity file already exists at ");
                out.append(plain);
                out.append(" but ");
                out.append(PASSPHRASE_ENV_VAR);
                out.append(
                    " was set; refusing to guess whether to load it as-is (ignoring the passphrase) or re-encrypt it in place. Either unset ",
                );
                out.append(PASSPHRASE_ENV_VAR);
                out.append(" to keep using the plain file, or move ");
                out.append(plain);
                out.append(
                    " aside and restart with the passphrase set to generate a fresh encrypted identity (this will change the node's identity/NodeID).",
                );
                out
            },
            IdentityError::PassphraseMissing => {
                let mut out = String::from_str("an encrypted identity file exists at ");
                out.append(encrypted);
                out.append(" but no passphrase was supplied. Set ");
                out.append(PASSPHRASE_ENV_VAR);
                out.append(" and restart.");
                out
            },
            IdentityError::EncryptionDisabled => String::from_str(
                "passphrase-encrypted identity storage requires building with `--features encrypted-identity` (pulls in the `pkcs8` crate); this build does not have it compiled in",
            ),
            IdentityError::Corrupt => {
                let mut out = String::from_str("failed to parse identity file ");
                out.append(plain);
                out.append(" — corrupt or from an incompatible version?");
                out
            },
            IdentityError::DecryptionFailed => String::from_str(
                "PKCS#8 decryption failed — wrong passphrase, or a corrupted file",
            ),
            IdentityError::EncryptionFailed => String::from_str("PKCS#8 encryption failed"),
        }
    }
}

// ── Which file ─────────────────────────────────────────────────────────────

/// What to do for an identity.
#[derive(Clone, Copy, Debug, PartialEq, Eq, Structural)]
pub enum IdentityPlan {
    LoadPlain,
    LoadEncrypted,
    /// Generate a pair and save it unencrypted.
    GeneratePlain,
    /// Generate a pair and save it encrypted.
    GenerateEncrypted,
    Refuse(IdentityError),
}

/// What to do for an identity. A passphrase selects encrypted storage. A
/// file of the other mode is never loaded, overwritten or passed over: that
/// is refused.
pub open spec fn identity_plan(
    passphrase: bool,
    encrypted_exists: bool,
    plain_exists: bool,
) -> IdentityPlan {
    if passphrase {
        if encrypted_exists {
            IdentityPlan::LoadEncrypted
        } else if plain_exists {
            IdentityPlan::Refuse(IdentityError::PlainFileExists)
        } else {
            IdentityPlan::GenerateEncrypted
        }
    } else if plain_exists {
        IdentityPlan::LoadPlain
    } else if encrypted_exists {
        IdentityPlan::Refuse(IdentityError::PassphraseMissing)
    } else {
        IdentityPlan::GeneratePlain
    }
}

/// A new pair is generated only where there is no identity file at all, so
/// no identity is ever replaced. Encrypted storage is used exactly with a
/// passphrase, and a file of the other mode is refused, each with its own
/// error.
pub proof fn identities_are_never_replaced(
    passphrase: bool,
    encrypted_exists: bool,
    plain_exists: bool,
)
    ensures
        ({
            let plan = identity_plan(passphrase, encrypted_exists, plain_exists);
            &&& plan == IdentityPlan::LoadEncrypted <==> passphrase && encrypted_exists
            &&& plan == IdentityPlan::LoadPlain <==> !passphrase && plain_exists
            &&& plan == IdentityPlan::GenerateEncrypted <==> passphrase && !encrypted_exists
                && !plain_exists
            &&& plan == IdentityPlan::GeneratePlain <==> !passphrase && !encrypted_exists
                && !plain_exists
            &&& plan == IdentityPlan::Refuse(IdentityError::PlainFileExists) <==> passphrase
                && !encrypted_exists && plain_exists
            &&& plan == IdentityPlan::Refuse(IdentityError::PassphraseMissing) <==> !passphrase
                && encrypted_exists && !plain_exists
        }),
{
}

/// Decides what to do for an identity.
pub fn plan_identity(passphrase: bool, encrypted_exists: bool, plain_exists: bool) -> (out:
    IdentityPlan)
    ensures
        out == identity_plan(passphrase, encrypted_exists, plain_exists),
{
    if passphrase {
        if encrypted_exists {
            IdentityPlan::LoadEncrypted
        } else if plain_exists {
            IdentityPlan::Refuse(IdentityError::PlainFileExists)
        } else {
            IdentityPlan::GenerateEncrypted
        }
    } else if plain_exists {
        IdentityPlan::LoadPlain
    } else if encrypted_exists {
        IdentityPlan::Refuse(IdentityError::PassphraseMissing)
    } else {
        IdentityPlan::GeneratePlain
    }
}

// ── Plain file ─────────────────────────────────────────────────────────────

/// The bytes of an unencrypted identity file.
pub open spec fn keypair_bytes(pair: KeypairView) -> Seq<u8> {
    counted(pair.public_key) + counted(pair.signing_key)
}

/// The key pair that `s` starts with, if it starts with one.
pub open spec fn parse_keypair(s: Seq<u8>) -> Option<KeypairView> {
    let n = le_value(s.subrange(0, 8)) as int;
    let m = le_value(s.subrange(8 + n, 16 + n)) as int;
    if s.len() < 8 || s.len() < 16 + n || s.len() < 16 + n + m {
        None
    } else {
        Some(
            KeypairView {
                public_key: s.subrange(8, 8 + n),
                signing_key: s.subrange(16 + n, 16 + n + m),
            },
        )
    }
}

/// Whether the keys have lengths that 64 bits can hold.
pub open spec fn keypair_sized(pair: KeypairView) -> bool {
    pair.public_key.len() <= u64::MAX && pair.signing_key.len() <= u64::MAX
}

/// An encoded key pair at the start of `s` is what `s` parses to.
proof fn keypair_layout(s: Seq<u8>, pair: KeypairView)
    requires
        keypair_sized(pair),
        keypair_bytes(pair).is_prefix_of(s),
    ensures
        parse_keypair(s) == Some(pair),
{
    let n = pair.public_key.len() as int;
    let m = pair.signing_key.len() as int;
    let enc = keypair_bytes(pair);
    byte_range_values();
    le_round_trip(pair.public_key.len(), 8);
    le_round_trip(pair.signing_key.len(), 8);
    assert(enc.len() == 16 + n + m);
    assert(enc =~= s.subrange(0, 16 + n + m));
    assert(forall|i: int| 0 <= i < 16 + n + m ==> s[i] == enc[i]);
    assert(s.subrange(0, 8) =~= le_bytes(pair.public_key.len(), 8));
    assert(s.subrange(8, 8 + n) =~= pair.public_key);
    assert(s.subrange(8 + n, 16 + n) =~= le_bytes(pair.signing_key.len(), 8));
    assert(s.subrange(16 + n, 16 + n + m) =~= pair.signing_key);
    assert(parse_keypair(s)->0 =~= pair);
}

/// What `s` parses to is encoded at its start.
proof fn keypair_found(s: Seq<u8>)
    requires
        parse_keypair(s) is Some,
    ensures
        keypair_sized(parse_keypair(s)->0),
        keypair_bytes(parse_keypair(s)->0).is_prefix_of(s),
{
    let n = le_value(s.subrange(0, 8)) as int;
    let m = le_value(s.subrange(8 + n, 16 + n)) as int;
    byte_range_values();
    le_value_bound(s.subrange(0, 8));
    le_value_bound(s.subrange(8 + n, 16 + n));
    le_value_round_trip(s.subrange(0, 8));
    le_value_round_trip(s.subrange(8 + n, 16 + n));
    assert(keypair_bytes(parse_keypair(s)->0) =~= s.subrange(0, 16 + n + m));
}

/// Reading a saved key pair gives the pair back.
pub proof fn keypair_round_trip(pair: KeypairView)
    requires
        keypair_sized(pair),
    ensures
        parse_keypair(keypair_bytes(pair)) == Some(pair),
{
    keypair_layout(keypair_bytes(pair), pair);
}

/// `bincode::serialize` on two byte vectors: each behind its 64-bit
/// little-endian length. Never fails.
#[verifier::external_body]
fn bincode_serialize_keypair(public_key: &Vec<u8>, signing_key: &Vec<u8>) -> (out: Result<
    Vec<u8>,
    bincode::Error,
>)
    ensures
        out is Ok,
        out->Ok_0@ == counted(public_key@) + counted(signing_key@),
{
    bincode::serialize(&(public_key, signing_key))
}

/// `bincode::deserialize` into two byte vectors: it succeeds exactly on
/// bytes that start with two encoded vectors, and ignores what follows.
#[verifier::external_body]
fn bincode_deserialize_keypair(bytes: &[u8]) -> (out: Result<(Vec<u8>, Vec<u8>), bincode::Error>)
    ensures
        out matches Ok(v) ==> (counted(v.0@) + counted(v.1@)).is_prefix_of(bytes@),
        out is Err ==> forall|pair: KeypairView|
            keypair_sized(pair) ==> !(#[trigger] keypair_bytes(pair)).is_prefix_of(bytes@),
{
    bincode::deserialize(bytes)
}

/// The content of an unencrypted identity file.
pub fn encode_plain(pair: &RawKeypair) -> (out: Result<Vec<u8>, IdentityError>)
    ensures
        out matches Ok(b) && b@ == keypair_bytes(pair@),
{
    match bincode_serialize_keypair(&pair.public_key, &pair.signing_key) {
        Ok(bytes) => Ok(bytes),
        Err(_) => Err(IdentityError::Corrupt),
    }
}

/// Reads an unencrypted identity file. A corrupt file is an error: taking
/// it for absent would silently give the node a new identity.
pub fn decode_plain(bytes: &[u8]) -> (out: Result<RawKeypair, IdentityError>)
    ensures
        match out {
            Ok(k) => parse_keypair(bytes@) == Some(k@),
            Err(e) => parse_keypair(bytes@) is None && e == IdentityError::Corrupt,
        },
{
    match bincode_deserialize_keypair(bytes) {
        Ok((public_key, signing_key)) => {
            let pair = RawKeypair { public_key, signing_key };
            proof {
                assert(public_key.len() <= usize::MAX);
                assert(signing_key.len() <= usize::MAX);
                keypair_layout(bytes@, pair@);
            }
            Ok(pair)
        },
        Err(_) => {
            proof {
                if parse_keypair(bytes@) is Some {
                    keypair_found(bytes@);
                }
            }
            Err(IdentityError::Corrupt)
        },
    }
}

// ── Generation ─────────────────────────────────────────────────────────────

/// `ml_dsa::MlDsa87::key_gen` on the operating system's randomness: public
/// and signing key, encoded. Signatures made with the one verify under the
/// other. Which pair it is is chance. It panics where the operating system
/// has no randomness to give.
#[verifier::external_body]
fn ml_dsa_key_gen() -> (out: (Vec<u8>, Vec<u8>))
    ensures
        matching_keys(out.0@, out.1@),
{
    let pair = ml_dsa::MlDsa87::key_gen(&mut rand::rngs::OsRng);
    (pair.verifying_key().encode().to_vec(), pair.signing_key().encode().to_vec())
}

/// A new key pair.
pub fn generate_raw_keypair() -> (out: RawKeypair)
    ensures
        matching_keys(out@.public_key, out@.signing_key),
{
    let (public_key, signing_key) = ml_dsa_key_gen();
    RawKeypair { public_key, signing_key }
}

// ── Encrypted file ─────────────────────────────────────────────────────────

/// PKCS#8's error.
#[verifier::external_type_specification]
#[verifier::external_body]
pub struct ExPkcs8Error(pkcs8::Error);

/// How a PKCS#8 document derives its encryption key from the passphrase.
#[derive(Clone, Copy, Debug, PartialEq, Eq, Structural)]
pub enum KeyDerivation {
    Scrypt { cost: u64, block_size: u16, parallelization: u16 },
    Other,
}

impl KeyDerivation {
    /// Whether the derivation can be carried out: scrypt needs a cost, and
    /// tables whose sizes in bytes an allocation can have.
    pub open spec fn computable(self) -> bool {
        match self {
            KeyDerivation::Scrypt { cost, block_size, parallelization } => {
                &&& cost > 0
                &&& 128 * (cost * block_size) <= isize::MAX
                &&& 128 * (parallelization * block_size) <= isize::MAX
            },
            KeyDerivation::Other => true,
        }
    }

    /// Whether the derivation can be carried out.
    fn is_computable(&self) -> (out: bool)
        ensures
            out == self.computable(),
    {
        match self {
            KeyDerivation::Scrypt { cost, block_size, parallelization } => {
                let (n, r, p) = (*cost, *block_size, *parallelization);
                assert(n * r <= 0xffff_ffff_ffff_ffff * 0xffff) by (nonlinear_arith)
                    requires
                        n <= 0xffff_ffff_ffff_ffff,
                        r <= 0xffff,
                ;
                assert(p * r <= 0xffff * 0xffff) by (nonlinear_arith)
                    requires
                        p <= 0xffff,
                        r <= 0xffff,
                ;
                let limit: u128 = isize::MAX as u128;
                n > 0 && 128 * (n as u128 * r as u128) <= limit && 128 * (p as u128 * r as u128)
                    <= limit
            },
            KeyDerivation::Other => true,
        }
    }
}

/// How an encrypted PKCS#8 document derives its key; `None` where the
/// document does not parse.
pub uninterp spec fn pkcs8_derivation(document: Seq<u8>) -> Option<KeyDerivation>;

/// Whether a document parses and its key derivation can be carried out.
pub open spec fn can_be_opened(document: Seq<u8>) -> bool {
    match pkcs8_derivation(document) {
        Some(derivation) => derivation.computable(),
        None => false,
    }
}

/// The private key in an encrypted PKCS#8 document, opened with a
/// passphrase; `None` where the document does not parse or the passphrase
/// does not fit.
pub uninterp spec fn pkcs8_private_key(document: Seq<u8>, passphrase: Seq<char>) -> Option<Seq<u8>>;

/// `pkcs8::PrivateKeyInfo::encrypt` with scrypt and AES-256-CBC. The
/// document is different each time, since salt and initialization vector
/// are chance, but the same passphrase opens it to the same key, and the
/// scrypt parameters are always the same. It fails only on keys too long
/// for the format, which takes 256 MiB. Other identifiers are left out:
/// parsing one with a large number in it can panic.
#[verifier::external_body]
fn pkcs8_encrypt(oid: &str, key: &[u8], passphrase: &str) -> (out: Result<Vec<u8>, pkcs8::Error>)
    requires
        oid@ == "1.3.6.1.4.1.0.9999.1.1"@,
    ensures
        out matches Ok(document) ==> pkcs8_private_key(document@, passphrase@) == Some(key@),
        out matches Ok(document) ==> pkcs8_derivation(document@) == Some(
            KeyDerivation::Scrypt { cost: 131072, block_size: 8, parallelization: 1 },
        ),
        key@.len() <= MAX_SEALED_KEY ==> out is Ok,
{
    let oid = pkcs8::ObjectIdentifier::new(oid).map_err(pkcs8::der::Error::from)?;
    let algorithm = pkcs8::AlgorithmIdentifierRef { oid, parameters: None };
    let info = pkcs8::PrivateKeyInfo::new(algorithm, key);
    Ok(info.encrypt(rand::rngs::OsRng, passphrase)?.as_bytes().to_vec())
}

/// `pkcs8::EncryptedPrivateKeyInfo::try_from`: parses the document, and
/// tells its key derivation.
#[verifier::external_body]
fn pkcs8_parse(document: &[u8]) -> (out: Result<KeyDerivation, pkcs8::Error>)
    ensures
        out is Ok <==> pkcs8_derivation(document@) is Some,
        out is Ok ==> out->Ok_0 == pkcs8_derivation(document@)->0,
{
    let parsed = pkcs8::EncryptedPrivateKeyInfo::try_from(document)?;
    Ok(match parsed.encryption_algorithm.pbes2().map(|parameters| &parameters.kdf) {
        Some(Kdf::Scrypt(scrypt)) => KeyDerivation::Scrypt {
            cost: scrypt.cost_parameter,
            block_size: scrypt.block_size,
            parallelization: scrypt.parallelization,
        },
        _ => KeyDerivation::Other,
    })
}

/// `pkcs8::EncryptedPrivateKeyInfo::decrypt` and
/// `pkcs8::PrivateKeyInfo::from_der`: the private key, a function of
/// document and passphrase. With a scrypt cost of zero, or tables too large
/// for any allocation, it can panic, so such documents are left out. That
/// another passphrase does not open the document is not stated: a short one
/// with a zero character behind it does, and others are only infeasible to
/// find.
#[verifier::external_body]
fn pkcs8_decrypt(document: &[u8], passphrase: &str) -> (out: Result<Vec<u8>, pkcs8::Error>)
    requires
        can_be_opened(document@),
    ensures
        out is Ok <==> pkcs8_private_key(document@, passphrase@) is Some,
        out is Ok ==> out->Ok_0@ == pkcs8_private_key(document@, passphrase@)->0,
{
    let encrypted = pkcs8::EncryptedPrivateKeyInfo::try_from(document)?;
    let decrypted = encrypted.decrypt(passphrase)?;
    let info = pkcs8::PrivateKeyInfo::from_der(decrypted.as_bytes())?;
    Ok(info.private_key.to_vec())
}

/// The bytes of an encrypted identity file: the public key behind its
/// 32-bit little-endian length, then the document. The public key is no
/// secret.
pub open spec fn sealed_bytes(public_key: Seq<u8>, document: Seq<u8>) -> Seq<u8> {
    le_bytes(public_key.len(), 4) + public_key + document
}

/// The public key and the document in an encrypted identity file; `None`
/// where it ends before the document.
pub open spec fn split_sealed(s: Seq<u8>) -> Option<(Seq<u8>, Seq<u8>)> {
    let n = le_value(s.subrange(0, 4)) as int;
    if s.len() < 4 || s.len() < 4 + n {
        None
    } else {
        Some((s.subrange(4, 4 + n), s.subrange(4 + n, s.len() as int)))
    }
}

/// The key pair that an encrypted identity file opens to under `passphrase`,
/// if it opens.
pub open spec fn opened_pair(s: Seq<u8>, passphrase: Seq<char>) -> Option<KeypairView> {
    match split_sealed(s) {
        None => None,
        Some((public_key, document)) => if !can_be_opened(document) {
            None
        } else {
            match pkcs8_private_key(document, passphrase) {
                None => None,
                Some(signing_key) => Some(KeypairView { public_key, signing_key }),
            }
        },
    }
}

/// What an encrypted identity file opens to under `passphrase`. Whatever
/// keeps it from opening, the error is the same.
pub open spec fn opened_sealed(s: Seq<u8>, passphrase: Seq<char>) -> Result<
    KeypairView,
    IdentityError,
> {
    match opened_pair(s, passphrase) {
        None => Err(IdentityError::DecryptionFailed),
        Some(pair) => Ok(pair),
    }
}

/// A file that does not open gives the same error whatever the reason: a
/// wrong passphrase cannot be told from a truncated or corrupted file.
pub proof fn refusals_look_alike(
    a: Seq<u8>,
    a_passphrase: Seq<char>,
    b: Seq<u8>,
    b_passphrase: Seq<char>,
)
    requires
        opened_sealed(a, a_passphrase) is Err,
        opened_sealed(b, b_passphrase) is Err,
    ensures
        opened_sealed(a, a_passphrase) == opened_sealed(b, b_passphrase),
{
}

/// Splitting what was put together gives the parts back.
proof fn sealed_split(public_key: Seq<u8>, document: Seq<u8>)
    requires
        public_key.len() <= u32::MAX,
    ensures
        split_sealed(sealed_bytes(public_key, document)) == Some((public_key, document)),
{
    let s = sealed_bytes(public_key, document);
    byte_range_values();
    le_round_trip(public_key.len(), 4);
    assert(s.subrange(0, 4) =~= le_bytes(public_key.len(), 4));
    assert(s.subrange(4, (4 + public_key.len()) as int) =~= public_key);
    assert(s.subrange((4 + public_key.len()) as int, s.len() as int) =~= document);
}

/// A file that opens gives the public key that stands in it in the clear and
/// the signing key that its document holds under the passphrase.
pub proof fn sealed_files_open_to_their_keys(
    public_key: Seq<u8>,
    document: Seq<u8>,
    passphrase: Seq<char>,
)
    requires
        public_key.len() <= u32::MAX,
        can_be_opened(document),
    ensures
        opened_sealed(sealed_bytes(public_key, document), passphrase) == match pkcs8_private_key(
            document,
            passphrase,
        ) {
            Some(signing_key) => Ok(KeypairView { public_key, signing_key }),
            None => Err(IdentityError::DecryptionFailed),
        },
{
    sealed_split(public_key, document);
}

/// A plain file that is cut short anywhere holds no key pair, so it is
/// refused and not taken for another identity.
pub proof fn cut_files_are_corrupt(pair: KeypairView, n: int)
    requires
        keypair_sized(pair),
        0 <= n < keypair_bytes(pair).len(),
    ensures
        loaded_plain(keypair_bytes(pair).subrange(0, n)) == Err::<KeypairView, IdentityError>(
            IdentityError::Corrupt,
        ),
        loaded_plain(keypair_bytes(pair)) == Ok::<KeypairView, IdentityError>(pair),
{
    let s = keypair_bytes(pair).subrange(0, n);
    keypair_round_trip(pair);
    if parse_keypair(s) is Some {
        keypair_found(s);
        let found = parse_keypair(s)->0;
        let enc = keypair_bytes(found);
        let whole = keypair_bytes(pair);
        assert(enc =~= s.subrange(0, enc.len() as int));
        assert(enc =~= whole.subrange(0, enc.len() as int));
        keypair_layout(whole, found);
        assert(found == pair);
    }
}

/// Encrypts a key pair into the content of an encrypted identity file. The
/// same passphrase opens it to the same pair.
pub fn encrypt(pair: &RawKeypair, passphrase: &str, enabled: bool) -> (out: Result<
    Vec<u8>,
    IdentityError,
>)
    requires
        pair.public_key@.len() <= u32::MAX,
    ensures
        !enabled ==> (out matches Err(e) && e == IdentityError::EncryptionDisabled),
        enabled ==> match out {
            Ok(b) => opened_sealed(b@, passphrase@) == Ok::<KeypairView, IdentityError>(pair@),
            Err(e) => e == IdentityError::EncryptionFailed && pair.signing_key@.len()
                > MAX_SEALED_KEY,
        },
{
    if !enabled {
        return Err(IdentityError::EncryptionDisabled);
    }
    match pkcs8_encrypt(ALGORITHM_OID, pair.signing_key.as_slice(), passphrase) {
        Ok(document) => {
            let mut out: Vec<u8> = Vec::new();
            append_le_u32(&mut out, pair.public_key.len() as u32);
            append_bytes(&mut out, pair.public_key.as_slice());
            append_bytes(&mut out, document.as_slice());
            proof {
                assert(out@ =~= sealed_bytes(pair.public_key@, document@));
                sealed_split(pair.public_key@, document@);
            }
            Ok(out)
        },
        Err(_) => Err(IdentityError::EncryptionFailed),
    }
}

/// Opens the content of an encrypted identity file. A wrong passphrase and a
/// truncated or corrupted file give the same error.
pub fn decrypt(bytes: &[u8], passphrase: &str, enabled: bool) -> (out: Result<
    RawKeypair,
    IdentityError,
>)
    ensures
        !enabled ==> (out matches Err(e) && e == IdentityError::EncryptionDisabled),
        enabled ==> match out {
            Ok(k) => opened_sealed(bytes@, passphrase@) == Ok::<KeypairView, IdentityError>(k@),
            Err(e) => opened_sealed(bytes@, passphrase@) == Err::<KeypairView, IdentityError>(e),
        },
{
    if !enabled {
        return Err(IdentityError::EncryptionDisabled);
    }
    if bytes.len() < 4 {
        return Err(IdentityError::DecryptionFailed);
    }
    let n: usize = read_le_u32(bytes) as usize;
    if bytes.len() - 4 < n {
        return Err(IdentityError::DecryptionFailed);
    }
    let public_key = copy_bytes(vstd::slice::slice_subrange(bytes, 4, 4 + n));
    let document = vstd::slice::slice_subrange(bytes, 4 + n, bytes.len());
    let derivation = match pkcs8_parse(document) {
        Ok(derivation) => derivation,
        Err(_) => return Err(IdentityError::DecryptionFailed),
    };
    if !derivation.is_computable() {
        return Err(IdentityError::DecryptionFailed);
    }
    match pkcs8_decrypt(document, passphrase) {
        Ok(signing_key) => Ok(RawKeypair { public_key, signing_key }),
        Err(_) => Err(IdentityError::DecryptionFailed),
    }
}

// ── Entry points ───────────────────────────────────────────────────────────

/// What the content of an unencrypted identity file loads to.
pub open spec fn loaded_plain(content: Seq<u8>) -> Result<KeypairView, IdentityError> {
    match parse_keypair(content) {
        Some(pair) => Ok(pair),
        None => Err(IdentityError::Corrupt),
    }
}

/// What the content of an encrypted identity file loads to.
pub open spec fn loaded_encrypted(content: Seq<u8>, passphrase: Seq<char>, enabled: bool) -> Result<
    KeypairView,
    IdentityError,
> {
    if enabled {
        opened_sealed(content, passphrase)
    } else {
        Err(IdentityError::EncryptionDisabled)
    }
}

/// An identity, and what is to be written for it.
pub struct LoadedIdentity {
    pub pair: RawKeypair,
    /// The content to write to the file of the mode in use, for a pair that
    /// was just generated.
    pub save: Option<Vec<u8>>,
}

/// Generates a key pair and the content of the file that keeps it. Loading
/// that content with the same passphrase, or without one, gives the pair
/// back.
pub fn generate_keypair(passphrase: Option<&str>, enabled: bool) -> (out: Result<
    (RawKeypair, Vec<u8>),
    IdentityError,
>)
    ensures
        out matches Ok(r) ==> matching_keys(r.0@.public_key, r.0@.signing_key),
        match passphrase {
            None => out matches Ok(r) && r.1@ == keypair_bytes(r.0@) && parse_keypair(r.1@)
                == Some(r.0@),
            Some(p) => if enabled {
                out matches Ok(r) && opened_sealed(r.1@, p@) == Ok::<KeypairView, IdentityError>(
                    r.0@,
                )
            } else {
                out matches Err(e) && e == IdentityError::EncryptionDisabled
            },
        },
{
    let pair = generate_raw_keypair();
    let content = match passphrase {
        None => {
            proof {
                keypair_round_trip(pair@);
            }
            encode_plain(&pair)
        },
        Some(passphrase) => encrypt(&pair, passphrase, enabled),
    };
    match content {
        Ok(bytes) => Ok((pair, bytes)),
        Err(e) => Err(e),
    }
}

/// Loads the node's key pair from the content of the identity file, or
/// generates one where there is no file. `enabled` says whether encrypted
/// storage is available. A file of the other mode, a corrupt file and a
/// wrong passphrase are errors, never a reason for a new identity. What a
/// first start saves, every later start with the same mode loads, so the
/// node keeps its key pair and with it its identifier.
pub fn load_or_generate_keypair(
    plain: Option<&[u8]>,
    encrypted: Option<&[u8]>,
    passphrase: Option<&str>,
    enabled: bool,
) -> (out: Result<LoadedIdentity, IdentityError>)
    ensures
        match identity_plan(passphrase is Some, encrypted is Some, plain is Some) {
            IdentityPlan::Refuse(e) => out matches Err(err) && err == e,
            IdentityPlan::LoadPlain => match out {
                Ok(id) => loaded_plain(plain->0@) == Ok::<KeypairView, IdentityError>(id.pair@)
                    && id.save is None,
                Err(e) => loaded_plain(plain->0@) == Err::<KeypairView, IdentityError>(e),
            },
            IdentityPlan::LoadEncrypted => match out {
                Ok(id) => loaded_encrypted(encrypted->0@, passphrase->0@, enabled) == Ok::<
                    KeypairView,
                    IdentityError,
                >(id.pair@) && id.save is None,
                Err(e) => loaded_encrypted(encrypted->0@, passphrase->0@, enabled) == Err::<
                    KeypairView,
                    IdentityError,
                >(e),
            },
            IdentityPlan::GeneratePlain => out matches Ok(id) && id.save matches Some(b)
                && loaded_plain(b@) == Ok::<KeypairView, IdentityError>(id.pair@) && matching_keys(
                id.pair@.public_key,
                id.pair@.signing_key,
            ),
            IdentityPlan::GenerateEncrypted => if enabled {
                out matches Ok(id) && id.save matches Some(b) && loaded_encrypted(
                    b@,
                    passphrase->0@,
                    enabled,
                ) == Ok::<KeypairView, IdentityError>(id.pair@) && matching_keys(
                    id.pair@.public_key,
                    id.pair@.signing_key,
                )
            } else {
                out matches Err(e) && e == IdentityError::EncryptionDisabled
            },
        },
{
    let plan = plan_identity(passphrase.is_some(), encrypted.is_some(), plain.is_some());
    let loaded = match (plan, plain, encrypted, passphrase) {
        (IdentityPlan::Refuse(e), _, _, _) => return Err(e),
        (IdentityPlan::LoadPlain, Some(bytes), _, _) => decode_plain(bytes),
        (IdentityPlan::LoadEncrypted, _, Some(bytes), Some(pass)) => decrypt(bytes, pass, enabled),
        _ => {
            return match generate_keypair(passphrase, enabled) {
                Ok((pair, bytes)) => Ok(LoadedIdentity { pair, save: Some(bytes) }),
                Err(e) => Err(e),
            };
        },
    };
    match loaded {
        Ok(pair) => Ok(LoadedIdentity { pair, save: None }),
        Err(e) => Err(e),
    }
}

} // verus!
