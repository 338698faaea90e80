//! Authenticated encryption (ChaCha20-Poly1305 with a random nonce per
//! message) and BLAKE3 key derivation.
use vstd::prelude::*;

use crate::frame::push_all;
use chacha20poly1305::aead::{Aead, KeyInit};
use chacha20poly1305::aead::rand_core::RngCore;

verus! {

/// Size of the nonce that starts every sealed blob.
pub const NONCE_SIZE: usize = 12;

/// Size of the Poly1305 authentication tag.
pub const TAG_SIZE: usize = 16;

/// ChaCha20-Poly1305 ciphertext (with tag) of `plaintext` under `key` and
/// `nonce`, with empty associated data.
pub uninterp spec fn chacha20poly1305_seal(key: Seq<u8>, nonce: Seq<u8>, plaintext: Seq<u8>) -> Seq<u8>;

/// ChaCha20-Poly1305 opening of `ciphertext` (with tag) under `key` and
/// `nonce`, with empty associated data: the plaintext, or `None` where the
/// tag does not authenticate it.
pub uninterp spec fn chacha20poly1305_open(key: Seq<u8>, nonce: Seq<u8>, ciphertext: Seq<u8>) -> Option<Seq<u8>>;

/// BLAKE3 digest (32 bytes) of `input`.
pub uninterp spec fn blake3_digest(input: Seq<u8>) -> [u8; 32];

/// BLAKE3 keyed digest (32 bytes) of `input` under a 32-byte `key`.
pub uninterp spec fn blake3_keyed_digest(key: Seq<u8>, input: Seq<u8>) -> [u8; 32];

/// Message lengths that the ChaCha20 keystream can cover: fewer than
/// 2^32 - 1 blocks of 64 bytes.
pub open spec fn aead_accepts(len: nat) -> bool {
    len / 64 < 0xffff_ffff
}

/// Declares the error type of the `aead` traits.
#[verifier::external_type_specification]
#[verifier::external_body]
pub struct ExAeadError(chacha20poly1305::Error);

/// `ChaCha20Poly1305::new(key)` then `Aead::encrypt(nonce, plaintext)`.
/// Claimed: the call succeeds exactly on the lengths that the keystream
/// covers (the length check in `encrypt_in_place_detached`), and its output is
/// the named ciphertext, 16 bytes longer than the plaintext.
#[verifier::external_body]
fn aead_seal(key: &[u8; 32], nonce: &[u8; 12], plaintext: &[u8]) -> (r: Result<Vec<u8>, chacha20poly1305::Error>)
    ensures
        (r is Ok) == aead_accepts(plaintext@.len()),
        r matches Ok(c) ==> c@ == chacha20poly1305_seal(key@, nonce@, plaintext@) && c@.len() == plaintext@.len() + TAG_SIZE,
{
    chacha20poly1305::ChaCha20Poly1305::new(key.into()).encrypt(nonce.into(), plaintext)
}

/// `ChaCha20Poly1305::new(key)` then `Aead::decrypt(nonce, ciphertext)`.
/// Claimed: the result is the named opening, and opening what sealing produced
/// under the same key and nonce gives the plaintext back (AEAD correctness).
#[verifier::external_body]
fn aead_open(key: &[u8; 32], nonce: &[u8; 12], ciphertext: &[u8]) -> (r: Result<Vec<u8>, chacha20poly1305::Error>)
    ensures
        (r is Ok) == (chacha20poly1305_open(key@, nonce@, ciphertext@) is Some),
        r matches Ok(p) ==> chacha20poly1305_open(key@, nonce@, ciphertext@) == Some(p@),
        r is Err ==> forall|p: Seq<u8>|
            aead_accepts(p.len()) ==> ciphertext@ != chacha20poly1305_seal(key@, nonce@, p),
        r matches Ok(q) ==> forall|p: Seq<u8>|
            aead_accepts(p.len()) && ciphertext@ == chacha20poly1305_seal(key@, nonce@, p) ==> q@ == p,
{
    chacha20poly1305::ChaCha20Poly1305::new(key.into()).decrypt(nonce.into(), ciphertext)
}

/// Twelve bytes from the operating system's random source
/// (`OsRng::fill_bytes`). Nothing is claimed of their value.
#[verifier::external_body]
fn random_nonce() -> (r: [u8; 12]) {
    let mut nonce = [0u8; 12];
    chacha20poly1305::aead::OsRng.fill_bytes(&mut nonce);
    nonce
}

/// Thirty-two bytes from the operating system's random source
/// (`OsRng::fill_bytes`). Nothing is claimed of their value.
#[verifier::external_body]
fn random_key_bytes() -> (r: [u8; 32]) {
    let mut key = [0u8; 32];
    chacha20poly1305::aead::OsRng.fill_bytes(&mut key);
    key
}

/// `blake3::hash`: the BLAKE3 digest of `input`.
#[verifier::external_body]
pub(crate) fn blake3_hash(input: &[u8]) -> (r: [u8; 32])
    ensures
        r == blake3_digest(input@),
{
    *blake3::hash(input).as_bytes()
}

/// `blake3::keyed_hash`: the keyed BLAKE3 digest of `input`.
#[verifier::external_body]
pub(crate) fn blake3_keyed_hash(key: &[u8; 32], input: &[u8]) -> (r: [u8; 32])
    ensures
        r == blake3_keyed_digest(key@, input@),
{
    *blake3::keyed_hash(key, input).as_bytes()
}

/// Errors of the encryption layer.
#[derive(Debug, Clone, Copy, PartialEq, Eq, Structural)]
pub enum CryptoError {
    /// The plaintext is longer than the cipher can cover.
    EncryptionFailed,
    /// The blob is shorter than a nonce and a tag.
    CiphertextTooShort,
    /// The tag does not authenticate the blob.
    DecryptionFailed,
}

/// What a sealed blob holds: nonce, then ciphertext with tag.
pub open spec fn sealed_blob(key: Seq<u8>, nonce: Seq<u8>, plaintext: Seq<u8>) -> Seq<u8> {
    nonce + chacha20poly1305_seal(key, nonce, plaintext)
}

/// What opening a blob gives: the plaintext, or `None`.
pub open spec fn open_blob(key: Seq<u8>, blob: Seq<u8>) -> Option<Seq<u8>> {
    if blob.len() < NONCE_SIZE + TAG_SIZE {
        None
    } else {
        chacha20poly1305_open(key, blob.subrange(0, 12), blob.subrange(12, blob.len() as int))
    }
}

/// Role byte that a client's nonces carry.
pub const ROLE_CLIENT: u8 = 0x01;
/// Role byte that a server's nonces carry.
pub const ROLE_SERVER: u8 = 0x02;
/// Position of the role byte in a nonce (its last byte).
pub const ROLE_BYTE: usize = 11;

/// Blobs sealed by a client-role cipher and by a server-role cipher never
/// share a nonce, whatever the random draws: the role byte tells them apart.
pub proof fn lemma_roles_never_share_nonces(client_blob: Seq<u8>, server_blob: Seq<u8>)
    requires
        client_blob.len() >= NONCE_SIZE,
        server_blob.len() >= NONCE_SIZE,
        client_blob[ROLE_BYTE as int] == ROLE_CLIENT,
        server_blob[ROLE_BYTE as int] == ROLE_SERVER,
    ensures
        client_blob.subrange(0, NONCE_SIZE as int) != server_blob.subrange(0, NONCE_SIZE as int),
{
    assert(client_blob.subrange(0, NONCE_SIZE as int)[ROLE_BYTE as int] != server_blob.subrange(
        0,
        NONCE_SIZE as int,
    )[ROLE_BYTE as int]);
}

/// A ChaCha20-Poly1305 cipher under a fixed 32-byte key; a cipher with a
/// role stamps its role byte into the last byte of every nonce it draws.
pub struct Cipher {
    key: [u8; 32],
    role: Option<u8>,
}

impl Cipher {
    /// The key of this cipher.
    pub closed spec fn key(&self) -> Seq<u8> {
        self.key@
    }

    /// The role byte of this cipher's nonces, if it has a role.
    pub closed spec fn role(&self) -> Option<u8> {
        self.role
    }

    /// A cipher under `key`, with fully random nonces.
    pub fn new(key: &[u8; 32]) -> (r: Cipher)
        ensures
            r.key() == key@,
            r.role() is None,
    {
        Cipher { key: *key, role: None }
    }

    /// A cipher under `key` whose nonces end with the byte `role`
    /// (`ROLE_CLIENT` or `ROLE_SERVER`), so that the two ends of a tunnel
    /// never draw the same nonce.
    pub fn new_with_role(key: &[u8; 32], role: u8) -> (r: Cipher)
        ensures
            r.key() == key@,
            r.role() == Some(role),
    {
        Cipher { key: *key, role: Some(role) }
    }

    /// Seals `plaintext` under a fresh random nonce (ending with the role
    /// byte where the cipher has a role); the blob is the nonce followed by
    /// the ciphertext and tag.
    pub fn encrypt(&mut self, plaintext: &[u8]) -> (r: Result<Vec<u8>, CryptoError>)
        ensures
            final(self).key() == old(self).key(),
            final(self).role() == old(self).role(),
            (r is Ok) == aead_accepts(plaintext@.len()),
            r matches Err(e) ==> e == CryptoError::EncryptionFailed,
            r matches Ok(blob) ==> blob@.len() == NONCE_SIZE + plaintext@.len() + TAG_SIZE
                && blob@ == sealed_blob(old(self).key(), blob@.subrange(0, 12), plaintext@),
            r matches Ok(blob) ==> (old(self).role() matches Some(b) ==> blob@[ROLE_BYTE as int] == b),
    {
        let mut nonce = random_nonce();
        match self.role {
            Some(b) => {
                nonce[ROLE_BYTE] = b;
            },
            None => {},
        }
        let ciphertext = match aead_seal(&self.key, &nonce, plaintext) {
            Ok(c) => c,
            Err(_) => return Err(CryptoError::EncryptionFailed),
        };
        let mut output: Vec<u8> = Vec::new();
        push_all(&mut output, &nonce);
        push_all(&mut output, ciphertext.as_slice());
        assert(output@.subrange(0, 12) =~= nonce@);
        Ok(output)
    }

    /// Opens a blob made by `encrypt` under the same key. Opening a blob that
    /// sealing produced gives the plaintext back.
    pub fn decrypt(&mut self, blob: &[u8]) -> (r: Result<Vec<u8>, CryptoError>)
        ensures
            final(self).key() == old(self).key(),
            final(self).role() == old(self).role(),
            blob@.len() < NONCE_SIZE + TAG_SIZE ==> r == Err::<Vec<u8>, CryptoError>(CryptoError::CiphertextTooShort),
            blob@.len() >= NONCE_SIZE + TAG_SIZE ==> match open_blob(old(self).key(), blob@) {
                Some(p) => r matches Ok(q) && q@ == p,
                None => r == Err::<Vec<u8>, CryptoError>(CryptoError::DecryptionFailed),
            },
            forall|nonce: Seq<u8>, p: Seq<u8>|
                #![trigger sealed_blob(old(self).key(), nonce, p)]
                nonce.len() == NONCE_SIZE && aead_accepts(p.len()) && blob@.len() == NONCE_SIZE + p.len() + TAG_SIZE
                    && blob@ == sealed_blob(old(self).key(), nonce, p) ==> (r matches Ok(q) && q@ == p),
    {
        if blob.len() < NONCE_SIZE + TAG_SIZE {
            return Err(CryptoError::CiphertextTooShort);
        }
        let nonce: [u8; 12] = [
            blob[0], blob[1], blob[2], blob[3], blob[4], blob[5],
            blob[6], blob[7], blob[8], blob[9], blob[10], blob[11],
        ];
        assert(nonce@ =~= blob@.subrange(0, 12));
        let ciphertext = &blob[NONCE_SIZE..blob.len()];
        let r = aead_open(&self.key, &nonce, ciphertext);
        proof {
            assert forall|n: Seq<u8>, p: Seq<u8>|
                n.len() == NONCE_SIZE && aead_accepts(p.len()) && blob@.len() == NONCE_SIZE + p.len() + TAG_SIZE
                    && blob@ == #[trigger] sealed_blob(self.key@, n, p)
                implies (r matches Ok(q) && q@ == p) by {
                assert(blob@.subrange(0, 12) =~= n);
                assert(ciphertext@ =~= chacha20poly1305_seal(self.key@, n, p));
            }
        }
        match r {
            Ok(p) => Ok(p),
            Err(_) => Err(CryptoError::DecryptionFailed),
        }
    }
}

/// A fresh random 32-byte key.
pub fn generate_key() -> (r: [u8; 32]) {
    random_key_bytes()
}

/// Domain-separation prefix of key derivation.
pub open spec fn key_derive_domain() -> Seq<u8> {
    seq![116u8, 117, 110, 100, 114, 97, 45, 107, 101, 121, 45, 100, 101, 114, 105, 118, 101, 45, 118, 50]
}

/// The key derived from a shared secret and a context label.
pub open spec fn derived_key(shared_secret: Seq<u8>, context: Seq<u8>) -> Seq<u8> {
    blake3_digest(key_derive_domain() + shared_secret + context)@
}

/// Derives a 32-byte key: BLAKE3 of "tundra-key-derive-v2", the shared
/// secret and the context, in that order.
pub fn derive_key(shared_secret: &[u8], context: &[u8]) -> (r: [u8; 32])
    ensures
        r@ == derived_key(shared_secret@, context@),
{
    let domain: [u8; 20] = [116, 117, 110, 100, 114, 97, 45, 107, 101, 121, 45, 100, 101, 114, 105, 118, 101, 45, 118, 50];
    let mut input: Vec<u8> = Vec::new();
    push_all(&mut input, &domain);
    assert(input@ =~= key_derive_domain());
    push_all(&mut input, shared_secret);
    push_all(&mut input, context);
    blake3_hash(input.as_slice())
}

/// Key derivation depends on nothing but its inputs.
pub proof fn lemma_derive_key_deterministic(s1: Seq<u8>, c1: Seq<u8>, s2: Seq<u8>, c2: Seq<u8>)
    requires
        s1 == s2,
        c1 == c2,
    ensures
        derived_key(s1, c1) == derived_key(s2, c2),
{
}

/// Compares two byte strings in time that depends only on their lengths:
/// true exactly when they are equal.
pub fn constant_time_eq(a: &[u8], b: &[u8]) -> (r: bool)
    ensures
        r == (a@ == b@),
{
    if a.len() != b.len() {
        return false;
    }
    let mut acc: u8 = 0;
    let mut i: usize = 0;
    while i < a.len()
        invariant
            a@.len() == b@.len(),
            i <= a@.len(),
            (acc == 0) == (forall|j: int| 0 <= j < i ==> a@[j] == b@[j]),
        decreases a@.len() - i,
    {
        let x = a[i];
        let y = b[i];
        let d = x ^ y;
        let next = acc | d;
        assert((x ^ y == 0) == (x == y)) by (bit_vector);
        assert((acc | d == 0) == (acc == 0 && d == 0)) by (bit_vector);
        acc = next;
        i = i + 1;
        assert((acc == 0) == (forall|j: int| 0 <= j < i ==> a@[j] == b@[j])) by {
            if acc == 0 {
                assert forall|j: int| 0 <= j < i implies a@[j] == b@[j] by {
                    if j < i - 1 {
                    }
                }
            }
        }
    }
    if acc == 0 {
        assert(a@ =~= b@);
    }
    acc == 0
}

/// Context label of the key that the client seals with: "client-enc".
pub open spec fn client_enc_label() -> Seq<u8> {
    seq![99u8, 108, 105, 101, 110, 116, 45, 101, 110, 99]
}

/// Context label of the key that the server seals with: "server-enc".
pub open spec fn server_enc_label() -> Seq<u8> {
    seq![115u8, 101, 114, 118, 101, 114, 45, 101, 110, 99]
}

/// The two directions' keys derived from a shared secret: the client's
/// sealing key, then the server's.
pub fn derive_session_keys(shared_secret: &[u8]) -> (r: ([u8; 32], [u8; 32]))
    ensures
        r.0@ == derived_key(shared_secret@, client_enc_label()),
        r.1@ == derived_key(shared_secret@, server_enc_label()),
{
    let client_label: [u8; 10] = [99, 108, 105, 101, 110, 116, 45, 101, 110, 99];
    let server_label: [u8; 10] = [115, 101, 114, 118, 101, 114, 45, 101, 110, 99];
    assert(client_label@ =~= client_enc_label());
    assert(server_label@ =~= server_enc_label());
    (derive_key(shared_secret, &client_label), derive_key(shared_secret, &server_label))
}

} // verus!
