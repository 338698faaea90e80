//! Hybrid post-quantum key encapsulation: Kyber768 and X25519, both of
//! which must succeed; their secrets are combined with BLAKE3.
use vstd::prelude::*;

use crate::crypto::{blake3_digest, blake3_hash};
use crate::frame::push_all;
use crate::ProtocolError;
use x25519_dalek::{PublicKey, StaticSecret};

verus! {

/// Size of a Kyber768 public key.
pub const KEM_PK_SIZE: usize = 1184;
/// Size of a Kyber768 ciphertext.
pub const KEM_CT_SIZE: usize = 1088;
/// Size of a Kyber768 secret key.
pub const KEM_SK_SIZE: usize = 2400;
/// Size of a hybrid public key: Kyber768 and X25519.
pub const HYBRID_PK_SIZE: usize = 1216;
/// Size of a hybrid ciphertext: Kyber768 and X25519.
pub const HYBRID_CT_SIZE: usize = 1120;

/// The shared secret that Kyber768 decapsulation of `ct` under the secret key
/// `sk` yields.
pub uninterp spec fn kyber_decapsulated(ct: Seq<u8>, sk: Seq<u8>) -> Seq<u8>;

/// The X25519 public key of the secret `sk`.
pub uninterp spec fn x25519_public_of(sk: Seq<u8>) -> Seq<u8>;

/// The X25519 shared secret of the secret `sk` and the peer key `pk`.
pub uninterp spec fn x25519_shared(sk: Seq<u8>, pk: Seq<u8>) -> Seq<u8>;

/// Declares Kyber's error type.
#[verifier::external_type_specification]
#[verifier::external_body]
pub struct ExKyberError(pqc_kyber::KyberError);

/// `pqc_kyber::keypair` with the operating system's random source. The keys
/// are random; nothing is claimed of them.
#[verifier::external_body]
fn kyber_keypair() -> (r: Result<([u8; 1184], [u8; 2400]), pqc_kyber::KyberError>) {
    match pqc_kyber::keypair(&mut rand_core::OsRng) {
        Ok(kp) => Ok((kp.public, kp.secret)),
        Err(e) => Err(e),
    }
}

/// `pqc_kyber::encapsulate` with the operating system's random source.
/// Claimed: a public key of the wrong length is refused (the length check at
/// the top of `encapsulate`). The ciphertext and secret are random.
#[verifier::external_body]
fn kyber_encapsulate(pk: &[u8]) -> (r: Result<([u8; 1088], [u8; 32]), pqc_kyber::KyberError>)
    ensures
        pk@.len() != KEM_PK_SIZE ==> r is Err,
{
    pqc_kyber::encapsulate(pk, &mut rand_core::OsRng)
}

/// `pqc_kyber::decapsulate`. Claimed: it succeeds exactly when the
/// ciphertext has the Kyber768 length (the secret key always has its length
/// here), and then gives the named secret.
#[verifier::external_body]
fn kyber_decapsulate(ct: &[u8], sk: &[u8; 2400]) -> (r: Result<[u8; 32], pqc_kyber::KyberError>)
    ensures
        (r is Ok) == (ct@.len() == KEM_CT_SIZE),
        r matches Ok(ss) ==> ss@ == kyber_decapsulated(ct@, sk@),
{
    pqc_kyber::decapsulate(ct, sk)
}

/// `StaticSecret::random_from_rng` with the operating system's random
/// source, as bytes. Nothing is claimed of them.
#[verifier::external_body]
fn x25519_random_secret() -> (r: [u8; 32]) {
    StaticSecret::random_from_rng(rand_core::OsRng).to_bytes()
}

/// `PublicKey::from(&StaticSecret::from(sk))`: the public key of a secret.
#[verifier::external_body]
fn x25519_public(sk: &[u8; 32]) -> (r: [u8; 32])
    ensures
        r@ == x25519_public_of(sk@),
{
    PublicKey::from(&StaticSecret::from(*sk)).to_bytes()
}

/// `StaticSecret::diffie_hellman`: the shared secret of `sk` and `pk`.
/// Claimed besides: Diffie-Hellman agreement, i.e. where `pk` is the public
/// key of some secret `a`, the result is what `a` computes with the public key
/// of `sk` (both are the clamped scalars' product times the base point).
#[verifier::external_body]
fn x25519_dh(sk: &[u8; 32], pk: &[u8; 32]) -> (r: [u8; 32])
    ensures
        r@ == x25519_shared(sk@, pk@),
        forall|a: Seq<u8>| pk@ == x25519_public_of(a) ==> r@ == x25519_shared(a, x25519_public_of(sk@)),
{
    StaticSecret::from(*sk).diffie_hellman(&PublicKey::from(*pk)).to_bytes()
}

/// The text of a Kyber error (`Debug` formatting).
#[verifier::external_body]
fn kyber_error_text(e: &pqc_kyber::KyberError) -> (r: String) {
    format!("{:?}", e)
}

/// A hybrid key pair. The secret halves are private.
pub struct HybridKeyPair {
    pub kyber_pk: [u8; 1184],
    kyber_sk: [u8; 2400],
    x25519_sk: [u8; 32],
    pub x25519_pk: [u8; 32],
}

impl HybridKeyPair {
    /// The Kyber secret key.
    pub closed spec fn kyber_secret(&self) -> Seq<u8> {
        self.kyber_sk@
    }

    /// The X25519 secret key.
    pub closed spec fn x25519_secret(&self) -> Seq<u8> {
        self.x25519_sk@
    }

    /// The Kyber public key.
    pub closed spec fn kyber_public(&self) -> Seq<u8> {
        self.kyber_pk@
    }

    /// The X25519 public key.
    pub closed spec fn x25519_public(&self) -> Seq<u8> {
        self.x25519_pk@
    }

    /// The Kyber public key's bytes.
    pub fn kyber_public_key(&self) -> (r: &[u8; 1184])
        ensures
            r@ == self.kyber_public(),
    {
        &self.kyber_pk
    }

    /// The X25519 public key's bytes.
    pub fn x25519_public_key(&self) -> (r: &[u8; 32])
        ensures
            r@ == self.x25519_public(),
    {
        &self.x25519_pk
    }
}

/// What the encapsulating side sends and keeps.
pub struct HybridEncapsulation {
    pub kyber_ct: [u8; 1088],
    pub x25519_ct: [u8; 32],
    pub shared_secret: [u8; 32],
}

/// Domain-separation prefix of the secret combiner.
pub open spec fn combine_domain() -> Seq<u8> {
    seq![116u8, 117, 110, 100, 114, 97, 45, 104, 121, 98, 114, 105, 100, 45, 107, 101, 109, 45, 118, 49]
}

/// The hybrid secret: BLAKE3 of "tundra-hybrid-kem-v1", the Kyber secret and
/// the X25519 secret.
pub open spec fn combined_secret(kyber_ss: Seq<u8>, x25519_ss: Seq<u8>) -> Seq<u8> {
    blake3_digest(combine_domain() + kyber_ss + x25519_ss)@
}

/// Combines the two shared secrets into one 32-byte secret.
pub fn combine_secrets(kyber_ss: &[u8], x25519_ss: &[u8]) -> (r: [u8; 32])
    ensures
        r@ == combined_secret(kyber_ss@, x25519_ss@),
{
    let domain: [u8; 20] = [116, 117, 110, 100, 114, 97, 45, 104, 121, 98, 114, 105, 100, 45, 107, 101, 109, 45, 118, 49];
    let mut input: Vec<u8> = Vec::new();
    push_all(&mut input, &domain);
    assert(input@ =~= combine_domain());
    push_all(&mut input, kyber_ss);
    push_all(&mut input, x25519_ss);
    blake3_hash(input.as_slice())
}

/// A fresh hybrid key pair; its X25519 public key is that of its secret.
pub fn generate_hybrid_keypair() -> (r: Result<HybridKeyPair, ProtocolError>)
    ensures
        r matches Ok(kp) ==> kp.x25519_public() == x25519_public_of(kp.x25519_secret()),
        r matches Err(e) ==> e is Kem,
{
    let (kyber_pk, kyber_sk) = match kyber_keypair() {
        Ok(k) => k,
        Err(e) => return Err(ProtocolError::Kem(kyber_error_text(&e))),
    };
    let x25519_sk = x25519_random_secret();
    let x25519_pk = x25519_public(&x25519_sk);
    Ok(HybridKeyPair { kyber_pk, kyber_sk, x25519_sk, x25519_pk })
}

/// The encapsulation made from a Kyber ciphertext and secret, an ephemeral
/// X25519 secret and the peer's X25519 public key.
pub fn hybrid_encapsulate_with(
    kyber_ct: [u8; 1088],
    kyber_ss: &[u8; 32],
    ephemeral_sk: &[u8; 32],
    x25519_pk: &[u8; 32],
) -> (r: HybridEncapsulation)
    ensures
        r.kyber_ct@ == kyber_ct@,
        r.x25519_ct@ == x25519_public_of(ephemeral_sk@),
        r.shared_secret@ == combined_secret(kyber_ss@, x25519_shared(ephemeral_sk@, x25519_pk@)),
        forall|a: Seq<u8>|
            x25519_pk@ == x25519_public_of(a) ==> r.shared_secret@ == combined_secret(
                kyber_ss@,
                x25519_shared(a, x25519_public_of(ephemeral_sk@)),
            ),
{
    let x25519_ct = x25519_public(ephemeral_sk);
    let x25519_ss = x25519_dh(ephemeral_sk, x25519_pk);
    let shared_secret = combine_secrets(kyber_ss, &x25519_ss);
    HybridEncapsulation { kyber_ct, x25519_ct, shared_secret }
}

/// Encapsulates to a peer's hybrid public key with fresh randomness. A Kyber
/// key of the wrong length is refused.
pub fn hybrid_encapsulate(kyber_pk: &[u8], x25519_pk: &[u8; 32]) -> (r: Result<HybridEncapsulation, ProtocolError>)
    ensures
        kyber_pk@.len() != KEM_PK_SIZE ==> r is Err,
        r matches Err(e) ==> e is Kem,
        r matches Ok(enc) ==> exists|kyber_ss: Seq<u8>, eph: Seq<u8>|
            enc.x25519_ct@ == x25519_public_of(eph) && enc.shared_secret@ == #[trigger] combined_secret(
                kyber_ss,
                x25519_shared(eph, x25519_pk@),
            ),
{
    let (kyber_ct, kyber_ss) = match kyber_encapsulate(kyber_pk) {
        Ok(k) => k,
        Err(e) => return Err(ProtocolError::Kem(kyber_error_text(&e))),
    };
    let eph = x25519_random_secret();
    let enc = hybrid_encapsulate_with(kyber_ct, &kyber_ss, &eph, x25519_pk);
    assert(enc.shared_secret@ == combined_secret(kyber_ss@, x25519_shared(eph@, x25519_pk@)));
    Ok(enc)
}

/// Decapsulates a hybrid ciphertext with a key pair. It succeeds exactly when
/// the Kyber ciphertext has its length. Where the X25519 ciphertext is the
/// public key of an ephemeral secret `e`, the result is the secret that the
/// encapsulating side computed with `e` and this key pair's X25519 public
/// key, given the same Kyber secret.
pub fn hybrid_decapsulate(keypair: &HybridKeyPair, kyber_ct: &[u8], x25519_ct: &[u8; 32]) -> (r: Result<[u8; 32], ProtocolError>)
    ensures
        (r is Ok) == (kyber_ct@.len() == KEM_CT_SIZE),
        r matches Err(e) ==> e is Kem,
        r matches Ok(ss) ==> ss@ == combined_secret(
            kyber_decapsulated(kyber_ct@, keypair.kyber_secret()),
            x25519_shared(keypair.x25519_secret(), x25519_ct@),
        ),
        r matches Ok(ss) ==> forall|e: Seq<u8>|
            x25519_ct@ == #[trigger] x25519_public_of(e) ==> ss@ == combined_secret(
                kyber_decapsulated(kyber_ct@, keypair.kyber_secret()),
                x25519_shared(e, x25519_public_of(keypair.x25519_secret())),
            ),
{
    let kyber_ss = match kyber_decapsulate(kyber_ct, &keypair.kyber_sk) {
        Ok(s) => s,
        Err(e) => return Err(ProtocolError::Kem(kyber_error_text(&e))),
    };
    let x25519_ss = x25519_dh(&keypair.x25519_sk, x25519_ct);
    Ok(combine_secrets(&kyber_ss, &x25519_ss))
}

/// A Kyber768 key pair; the secret key is private.
pub struct KemKeyPair {
    pub public_key: [u8; 1184],
    secret_key: [u8; 2400],
}

impl KemKeyPair {
    /// The secret key.
    pub closed spec fn secret(&self) -> Seq<u8> {
        self.secret_key@
    }

    /// The public key.
    pub closed spec fn public(&self) -> Seq<u8> {
        self.public_key@
    }

    /// The public key's bytes.
    pub fn public_key_bytes(&self) -> (r: &[u8; 1184])
        ensures
            r@ == self.public(),
    {
        &self.public_key
    }
}

/// What Kyber768 encapsulation sends (the ciphertext) and keeps (the secret).
pub struct KemEncapsulation {
    pub ciphertext: [u8; 1088],
    pub shared_secret: [u8; 32],
}

/// A fresh Kyber768 key pair.
pub fn generate_keypair() -> (r: Result<KemKeyPair, ProtocolError>)
    ensures
        r matches Err(e) ==> e is Kem,
{
    match kyber_keypair() {
        Ok((public_key, secret_key)) => Ok(KemKeyPair { public_key, secret_key }),
        Err(e) => Err(ProtocolError::Kem(kyber_error_text(&e))),
    }
}

/// Encapsulates a fresh secret to a Kyber768 public key; a key of the wrong
/// length is refused.
pub fn encapsulate(public_key: &[u8]) -> (r: Result<KemEncapsulation, ProtocolError>)
    ensures
        public_key@.len() != KEM_PK_SIZE ==> r is Err,
        r matches Err(e) ==> e is Kem,
{
    match kyber_encapsulate(public_key) {
        Ok((ciphertext, shared_secret)) => Ok(KemEncapsulation { ciphertext, shared_secret }),
        Err(e) => Err(ProtocolError::Kem(kyber_error_text(&e))),
    }
}

/// Decapsulates a Kyber768 ciphertext with a key pair; it succeeds exactly
/// when the ciphertext has the Kyber768 length.
pub fn decapsulate(keypair: &KemKeyPair, ciphertext: &[u8]) -> (r: Result<[u8; 32], ProtocolError>)
    ensures
        (r is Ok) == (ciphertext@.len() == KEM_CT_SIZE),
        r matches Ok(ss) ==> ss@ == kyber_decapsulated(ciphertext@, keypair.secret()),
        r matches Err(e) ==> e is Kem,
{
    match kyber_decapsulate(ciphertext, &keypair.secret_key) {
        Ok(ss) => Ok(ss),
        Err(e) => Err(ProtocolError::Kem(kyber_error_text(&e))),
    }
}

} // verus!
