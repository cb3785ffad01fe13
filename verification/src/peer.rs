//! Self-signed node records.
use ml_dsa::signature::{SignatureEncoding, Signer, Verifier};
use vstd::prelude::*;
use vstd::string::*;
use vstd::utf8::{encode_utf8, encode_utf8_decode_utf8};

use crate::bytes::{append_bytes, copy_bytes, same_id};
use crate::envelope::NodeId;
use crate::hash::{sha3_256, sha3_256_digest};
use crate::text::{decimal, decimal_text};

verus! {

/// ML-DSA-87 verifying (public) key length in bytes.
pub const PUBLIC_KEY_LEN: usize = 2592;

/// ML-DSA-87 signature length in bytes.
pub const SIGNATURE_LEN: usize = 4627;

/// ML-DSA-87 signing (secret) key length in bytes.
pub const SIGNING_KEY_LEN: usize = 4896;

/// A socket address in its textual form, as `127.0.0.1:9000` or
/// `[::1]:9000`.
pub type NodeAddr = String;

/// Why a node record could not be made.
#[derive(Clone, Copy, Debug, PartialEq, Eq, Structural)]
pub enum PeerError {
    /// The signing key has the wrong length.
    SigningKeyLength { got: usize },
    /// The signing key has the right length but encodes no key.
    MalformedSigningKey,
}

impl PeerError {
    /// The error in words.
    pub open spec fn text(self) -> Seq<char> {
        match self {
            PeerError::SigningKeyLength { got } => "ML-DSA signing key must be 4896 bytes, got "@
                + decimal_text(got as nat),
            PeerError::MalformedSigningKey => "ML-DSA signing key is malformed"@,
        }
    }

    /// The error in words.
    pub fn message(&self) -> (out: String)
        ensures
            out@ == self.text(),
    {
        match self {
            PeerError::SigningKeyLength { got } => {
                let mut out = String::from_str("ML-DSA signing key must be 4896 bytes, got ");
                out.append(decimal(*got as u64).as_str());
                out
            },
            PeerError::MalformedSigningKey => String::from_str("ML-DSA signing key is malformed"),
        }
    }
}

/// A self-signed peer identity record: a public key, a network address,
/// and a signature over both made with the matching signing key.
#[derive(Debug)]
pub struct PrimusNR {
    pub public_key: Vec<u8>,
    pub addr: NodeAddr,
    pub signature: Vec<u8>,
}

/// What a `PrimusNR` holds, as mathematical values.
#[verifier::ext_equal]
pub struct RecordView {
    pub public_key: Seq<u8>,
    pub addr: Seq<char>,
    pub signature: Seq<u8>,
}

impl View for PrimusNR {
    type V = RecordView;

    open spec fn view(&self) -> RecordView {
        RecordView {
            public_key: self.public_key@,
            addr: self.addr@,
            signature: self.signature@,
        }
    }
}

impl Clone for PrimusNR {
    fn clone(&self) -> (out: Self)
        ensures
            out@ == self@,
    {
        PrimusNR {
            public_key: copy_bytes(self.public_key.as_slice()),
            addr: self.addr.clone(),
            signature: copy_bytes(self.signature.as_slice()),
        }
    }
}

/// Where the secret polynomials start in an encoded signing key.
pub const SECRETS_START: usize = 128;

/// How many byte triples the secret polynomials take up there.
pub const SECRET_TRIPLES: usize = 480;

/// Whether each of the eight three-bit groups in the little-endian number
/// `n` is at most four.
pub open spec fn groups_in_range(n: int) -> bool {
    &&& n % 8 <= 4
    &&& n / 8 % 8 <= 4
    &&& n / 64 % 8 <= 4
    &&& n / 512 % 8 <= 4
    &&& n / 4096 % 8 <= 4
    &&& n / 32768 % 8 <= 4
    &&& n / 262144 % 8 <= 4
    &&& n / 2097152 % 8 <= 4
}

/// The `i`-th byte triple of the secret polynomials as a little-endian
/// number.
pub open spec fn secret_triple(key: Seq<u8>, i: int) -> int {
    let at = SECRETS_START + 3 * i;
    key[at] + 256 * key[at + 1] + 65536 * key[at + 2]
}

/// Whether `key` encodes a signing key: it has the right length, and every
/// coefficient of its secret polynomials, three bits each, is one of the
/// five that there are.
pub open spec fn is_signing_key(key: Seq<u8>) -> bool {
    &&& key.len() == SIGNING_KEY_LEN
    &&& forall|i: int|
        0 <= i < SECRET_TRIPLES ==> groups_in_range(#[trigger] secret_triple(key, i))
}

/// Whether the secret polynomials in a key of the right length are in range.
fn secrets_in_range(key: &[u8]) -> (out: bool)
    requires
        key@.len() == SIGNING_KEY_LEN,
    ensures
        out == is_signing_key(key@),
{
    let mut i: usize = 0;
    while i < SECRET_TRIPLES
        invariant
            key@.len() == SIGNING_KEY_LEN,
            i <= SECRET_TRIPLES,
            forall|j: int| 0 <= j < i ==> groups_in_range(#[trigger] secret_triple(key@, j)),
        decreases SECRET_TRIPLES - i,
    {
        let at: usize = SECRETS_START + 3 * i;
        let n: u32 = key[at] as u32 + 256 * (key[at + 1] as u32) + 65536 * (key[at + 2] as u32);
        assert(n == secret_triple(key@, i as int));
        let in_range = n % 8 <= 4 && n / 8 % 8 <= 4 && n / 64 % 8 <= 4 && n / 512 % 8 <= 4 && n
            / 4096 % 8 <= 4 && n / 32768 % 8 <= 4 && n / 262144 % 8 <= 4 && n / 2097152 % 8 <= 4;
        if !in_range {
            return false;
        }
        i = i + 1;
    }
    true
}

/// The ML-DSA-87 signature of `message` under signing key `key`.
pub uninterp spec fn ml_dsa_signature(key: Seq<u8>, message: Seq<u8>) -> Seq<u8>;

/// Whether `signature` decodes and verifies for `message` under public key
/// `key`.
pub uninterp spec fn ml_dsa_accepts(
    key: Seq<u8>,
    message: Seq<u8>,
    signature: Seq<u8>,
) -> bool;

/// `ml_dsa::SigningKey::<MlDsa87>::decode`, then `Signer::sign`: the
/// deterministic variant with an empty context, a function of key and
/// message, 4627 bytes long. Decoding panics on a key whose secret
/// polynomials are out of range, so such keys are left out. The rejection
/// sampling gives up, with a panic, after more than nine thousand rejected
/// attempts.
#[verifier::external_body]
fn ml_dsa_sign(key: &[u8], message: &[u8]) -> (out: Vec<u8>)
    requires
        is_signing_key(key@),
    ensures
        out@ == ml_dsa_signature(key@, message@),
        out@.len() == SIGNATURE_LEN,
{
    let encoded = ml_dsa::EncodedSigningKey::<ml_dsa::MlDsa87>::try_from(key).unwrap();
    let signer = ml_dsa::SigningKey::<ml_dsa::MlDsa87>::decode(&encoded);
    signer.sign(message).to_bytes().to_vec()
}

/// `ml_dsa::Signature::decode`, `ml_dsa::VerifyingKey::decode` and
/// `Verifier::verify`: whether the signature decodes and verifies, a
/// function of key, message and signature. That a signature made for
/// another message is rejected is not stated: there are exceptions, which
/// are only infeasible to find.
#[verifier::external_body]
fn ml_dsa_verify(key: &[u8], message: &[u8], signature: &[u8]) -> (out: bool)
    requires
        key@.len() == PUBLIC_KEY_LEN,
        signature@.len() == SIGNATURE_LEN,
    ensures
        out == ml_dsa_accepts(key@, message@, signature@),
{
    let encoded = ml_dsa::EncodedVerifyingKey::<ml_dsa::MlDsa87>::try_from(key).unwrap();
    let verifier = ml_dsa::VerifyingKey::<ml_dsa::MlDsa87>::decode(&encoded);
    match ml_dsa::Signature::<ml_dsa::MlDsa87>::try_from(signature) {
        Ok(decoded) => verifier.verify(message, &decoded).is_ok(),
        Err(_) => false,
    }
}

/// Whether signatures made with `signing_key` verify under `public_key`.
pub open spec fn matching_keys(public_key: Seq<u8>, signing_key: Seq<u8>) -> bool {
    &&& public_key.len() == PUBLIC_KEY_LEN
    &&& is_signing_key(signing_key)
    &&& forall|message: Seq<u8>|
        ml_dsa_accepts(public_key, message, #[trigger] ml_dsa_signature(signing_key, message))
}

/// What is signed and verified: the address text, then the public key.
pub open spec fn signed_bytes(addr: Seq<char>, public_key: Seq<u8>) -> Seq<u8> {
    encode_utf8(addr) + public_key
}

impl RecordView {
    /// Whether the record's own signature holds.
    pub open spec fn verifies(self) -> bool {
        &&& self.public_key.len() == PUBLIC_KEY_LEN
        &&& self.signature.len() == SIGNATURE_LEN
        &&& ml_dsa_accepts(
            self.public_key,
            signed_bytes(self.addr, self.public_key),
            self.signature,
        )
    }

    /// SHA3-256 of the public key.
    pub open spec fn node_id(self) -> [u8; 32] {
        sha3_256(self.public_key)
    }
}

/// The record for `addr` that the holder of the two keys makes.
pub open spec fn record_for(addr: Seq<char>, public_key: Seq<u8>, signing_key: Seq<u8>) -> RecordView {
    RecordView {
        public_key,
        addr,
        signature: ml_dsa_signature(signing_key, signed_bytes(addr, public_key)),
    }
}

impl PrimusNR {
    /// Builds and signs a record for `addr`. Fails exactly where the
    /// signing key has the wrong length or is malformed. A record made with
    /// a matching key pair verifies, at every address.
    pub fn new(addr: NodeAddr, ml_dsa_pk: &[u8], ml_dsa_sk: &[u8]) -> (out: Result<Self, PeerError>)
        ensures
            match out {
                Ok(r) => is_signing_key(ml_dsa_sk@) && r@ == record_for(
                    addr@,
                    ml_dsa_pk@,
                    ml_dsa_sk@,
                ),
                Err(e) => !is_signing_key(ml_dsa_sk@) && e == if ml_dsa_sk@.len()
                    != SIGNING_KEY_LEN {
                    PeerError::SigningKeyLength { got: ml_dsa_sk@.len() as usize }
                } else {
                    PeerError::MalformedSigningKey
                },
            },
            matching_keys(ml_dsa_pk@, ml_dsa_sk@) ==> out is Ok && out->Ok_0@.verifies(),
    {
        if ml_dsa_sk.len() != SIGNING_KEY_LEN {
            return Err(PeerError::SigningKeyLength { got: ml_dsa_sk.len() });
        }
        if !secrets_in_range(ml_dsa_sk) {
            return Err(PeerError::MalformedSigningKey);
        }
        let message = Self::signing_bytes(&addr, ml_dsa_pk);
        let signature = ml_dsa_sign(ml_dsa_sk, message.as_slice());
        Ok(PrimusNR { public_key: copy_bytes(ml_dsa_pk), addr, signature })
    }

    /// The bytes that get signed and verified.
    pub fn signing_bytes(addr: &NodeAddr, public_key: &[u8]) -> (out: Vec<u8>)
        ensures
            out@ == signed_bytes(addr@, public_key@),
    {
        let mut out = copy_bytes(addr.as_str().as_bytes());
        append_bytes(&mut out, public_key);
        out
    }

    /// Checks the record's own signature. Keys and signatures of the wrong
    /// length are refused.
    pub fn verify(&self) -> (out: bool)
        ensures
            out == self@.verifies(),
    {
        if self.public_key.len() != PUBLIC_KEY_LEN || self.signature.len() != SIGNATURE_LEN {
            return false;
        }
        let message = Self::signing_bytes(&self.addr, self.public_key.as_slice());
        ml_dsa_verify(self.public_key.as_slice(), message.as_slice(), self.signature.as_slice())
    }

    /// The node identifier: SHA3-256 of the public key.
    pub fn node_id(&self) -> (out: NodeId)
        ensures
            out == self@.node_id(),
    {
        sha3_256_digest(self.public_key.as_slice())
    }

    /// The peer's network address.
    pub fn addr(&self) -> (out: NodeAddr)
        ensures
            out@ == self@.addr,
    {
        self.addr.clone()
    }
}

/// The address of the first record for `node`.
pub open spec fn first_addr(records: Seq<PrimusNR>, node: Seq<u8>) -> Option<Seq<char>>
    decreases records.len(),
{
    if records.len() == 0 {
        None
    } else if records[0]@.node_id()@ == node {
        Some(records[0]@.addr)
    } else {
        first_addr(records.drop_first(), node)
    }
}

/// The address of the first record in `records` whose identifier is
/// exactly `node`. An approximate match does not count.
pub fn find_addr(records: &Vec<PrimusNR>, node: &NodeId) -> (out: Option<NodeAddr>)
    ensures
        match out {
            Some(a) => first_addr(records@, node@) == Some(a@),
            None => first_addr(records@, node@) is None,
        },
{
    let mut i: usize = 0;
    assert(records@.subrange(0, records@.len() as int) =~= records@);
    while i < records.len()
        invariant
            i <= records@.len(),
            first_addr(records@, node@) == first_addr(
                records@.subrange(i as int, records@.len() as int),
                node@,
            ),
        decreases records@.len() - i,
    {
        let ghost rest = records@.subrange(i as int, records@.len() as int);
        assert(rest[0] == records@[i as int]);
        assert(rest.drop_first() =~= records@.subrange(i + 1, records@.len() as int));
        if same_id(&records[i].node_id(), node) {
            return Some(records[i].addr());
        }
        i = i + 1;
    }
    None
}

/// A node's address is that of the first record with exactly its identifier;
/// without such a record it has none, however close others come.
pub proof fn addresses_come_from_exact_records(records: Seq<PrimusNR>, node: Seq<u8>)
    ensures
        match first_addr(records, node) {
            Some(a) => exists|i: int|
                0 <= i < records.len() && (#[trigger] records[i])@.node_id()@ == node
                    && records[i]@.addr == a && forall|j: int|
                    0 <= j < i ==> (#[trigger] records[j])@.node_id()@ != node,
            None => forall|j: int|
                0 <= j < records.len() ==> (#[trigger] records[j])@.node_id()@ != node,
        },
    decreases records.len(),
{
    if records.len() > 0 {
        let rest = records.drop_first();
        addresses_come_from_exact_records(rest, node);
        if records[0]@.node_id()@ == node {
            assert(records[0]@.addr == first_addr(records, node)->0);
        } else {
            match first_addr(rest, node) {
                Some(a) => {
                    let i = choose|i: int|
                        0 <= i < rest.len() && (#[trigger] rest[i])@.node_id()@ == node
                            && rest[i]@.addr == a && forall|j: int|
                            0 <= j < i ==> (#[trigger] rest[j])@.node_id()@ != node;
                    assert(records[i + 1] == rest[i]);
                    assert forall|j: int| 0 <= j < i + 1 implies (
                    #[trigger] records[j])@.node_id()@ != node by {
                        if j > 0 {
                            assert(rest[j - 1] == records[j]);
                        }
                    }
                },
                None => {
                    assert forall|j: int| 0 <= j < records.len() implies (
                    #[trigger] records[j])@.node_id()@ != node by {
                        if j > 0 {
                            assert(rest[j - 1] == records[j]);
                        }
                    }
                },
            }
        }
    }
}

/// What is signed binds address and key together: for keys of one length,
/// the same bytes are signed only for the same address and the same key.
pub proof fn signatures_bind_address_and_key(a: RecordView, b: RecordView)
    requires
        a.public_key.len() == b.public_key.len(),
        signed_bytes(a.addr, a.public_key) == signed_bytes(b.addr, b.public_key),
    ensures
        a.addr == b.addr,
        a.public_key == b.public_key,
{
    let x = encode_utf8(a.addr);
    let y = encode_utf8(b.addr);
    let s = signed_bytes(a.addr, a.public_key);
    assert(s.len() == x.len() + a.public_key.len());
    assert(signed_bytes(b.addr, b.public_key).len() == y.len() + b.public_key.len());
    assert(x.len() == y.len());
    assert(x =~= s.subrange(0, x.len() as int));
    assert(y =~= s.subrange(0, x.len() as int));
    assert(a.public_key =~= s.subrange(x.len() as int, s.len() as int));
    assert(b.public_key =~= s.subrange(x.len() as int, s.len() as int));
    encode_utf8_decode_utf8(a.addr);
    encode_utf8_decode_utf8(b.addr);
}

/// A record verifies only under the key it carries and for the address it
/// carries, and never with a key or signature of the wrong length.
pub proof fn records_verify_under_their_own_key(r: RecordView)
    ensures
        r.verifies() <==> r.public_key.len() == 2592 && r.signature.len() == 4627
            && ml_dsa_accepts(r.public_key, encode_utf8(r.addr) + r.public_key, r.signature),
{
}

/// The identifier depends on the public key alone, so a node keeps it
/// whatever its address and signature.
pub proof fn node_id_follows_the_key(a: RecordView, b: RecordView)
    requires
        a.public_key == b.public_key,
    ensures
        a.node_id() == b.node_id(),
{
}

} // verus!
