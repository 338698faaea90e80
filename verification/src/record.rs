//! Encrypted records of the tunnel: a frame sealed under the sender's cipher,
//! sent as the sealed length (two big-endian bytes) and the sealed blob.
use vstd::prelude::*;

use crate::crypto::{aead_accepts, open_blob, sealed_blob, Cipher, CryptoError, NONCE_SIZE, ROLE_BYTE, TAG_SIZE};
use crate::frame::{be_u16_bytes, frame_of_bytes, frame_wire, push_all, Frame, MuxHeader};
use crate::ProtocolError;

verus! {

/// Why a record could not be made or read.
#[derive(Debug)]
pub enum RecordError {
    /// Sealing or opening failed.
    Crypto(CryptoError),
    /// The sealed frame does not fit a 16-bit length.
    TooLarge,
    /// A record of length zero, which ends the stream of records.
    Empty,
    /// The opened bytes are not a frame.
    Frame(ProtocolError),
}

/// Largest sealed blob that a record can carry.
pub const MAX_RECORD_LEN: usize = 65535;

/// Seals `frame` into a record: the blob's length as two big-endian bytes,
/// then the blob (fresh nonce, ciphertext, tag) of the frame's wire bytes.
/// Fails where the sealed frame would not fit a 16-bit length.
pub fn seal_frame(cipher: &mut Cipher, frame: &Frame) -> (r: Result<Vec<u8>, RecordError>)
    ensures
        final(cipher).key() == old(cipher).key(),
        final(cipher).role() == old(cipher).role(),
        !aead_accepts(frame_wire(frame.header, frame.payload@).len()) ==> r matches Err(
            RecordError::Crypto(CryptoError::EncryptionFailed),
        ),
        aead_accepts(frame_wire(frame.header, frame.payload@).len()) ==> ((r is Ok) <==> NONCE_SIZE
            + frame_wire(frame.header, frame.payload@).len() + TAG_SIZE <= MAX_RECORD_LEN),
        r is Err ==> r matches Err(RecordError::Crypto(_)) || r matches Err(RecordError::TooLarge),
        r matches Ok(rec) ==> is_sealed_record(old(cipher).key(), rec@, frame.header, frame.payload@),
        r matches Ok(rec) ==> (old(cipher).role() matches Some(b) ==> rec@[2 + ROLE_BYTE] == b),
{
    let plaintext = frame.encode();
    let blob = match cipher.encrypt(plaintext.as_slice()) {
        Ok(b) => b,
        Err(e) => return Err(RecordError::Crypto(e)),
    };
    if blob.len() > MAX_RECORD_LEN {
        return Err(RecordError::TooLarge);
    }
    let len = blob.len() as u16;
    let mut rec: Vec<u8> = Vec::new();
    rec.push((len / 256) as u8);
    rec.push((len % 256) as u8);
    push_all(&mut rec, blob.as_slice());
    assert(rec@.subrange(0, 2) =~= be_u16_bytes(len));
    assert(rec@.subrange(2, rec@.len() as int) =~= blob@);
    assert(rec@.subrange(2, 2 + NONCE_SIZE) =~= blob@.subrange(0, 12));
    Ok(rec)
}

/// Opens the blob of a record (the bytes after its length) and decodes the
/// frame in it. A record of length zero ends the stream. Opening what
/// `seal_frame` sealed under the same key gives the frame back.
pub fn open_frame(cipher: &mut Cipher, blob: &[u8]) -> (r: Result<Frame, RecordError>)
    ensures
        final(cipher).key() == old(cipher).key(),
        final(cipher).role() == old(cipher).role(),
        blob@.len() == 0 ==> r matches Err(RecordError::Empty),
        blob@.len() > 0 ==> match open_blob(old(cipher).key(), blob@) {
            None => r matches Err(RecordError::Crypto(_)),
            Some(p) => match frame_of_bytes(p) {
                Ok((h, payload)) => r matches Ok(f) && f.header == h && f.payload@ == payload,
                Err(e) => r matches Err(RecordError::Frame(e2)) && e2 == e,
            },
        },
        forall|nonce: Seq<u8>, h: MuxHeader, payload: Seq<u8>|
            #![trigger sealed_blob(old(cipher).key(), nonce, frame_wire(h, payload))]
            nonce.len() == NONCE_SIZE && h.length == payload.len() && aead_accepts(frame_wire(h, payload).len())
                && blob@.len() == NONCE_SIZE + frame_wire(h, payload).len() + TAG_SIZE && blob@ == sealed_blob(
                old(cipher).key(),
                nonce,
                frame_wire(h, payload),
            ) ==> (r matches Ok(f)
                && f.header == h && f.payload@ == payload),
{
    if blob.len() == 0 {
        return Err(RecordError::Empty);
    }
    let ghost key = cipher.key();
    let opened = cipher.decrypt(blob);
    proof {
        assert forall|nonce: Seq<u8>, h: MuxHeader, payload: Seq<u8>|
            nonce.len() == NONCE_SIZE && h.length == payload.len() && aead_accepts(frame_wire(h, payload).len())
                && blob@.len() == NONCE_SIZE + frame_wire(h, payload).len() + TAG_SIZE && blob@
                == #[trigger] sealed_blob(key, nonce, frame_wire(h, payload)) implies (opened matches Ok(
            q,
        ) && q@ == frame_wire(h, payload) && frame_of_bytes(q@) == Ok::<(MuxHeader, Seq<u8>), ProtocolError>(
            (h, payload),
        )) by {
            crate::frame::lemma_frame_roundtrip(h, payload, Seq::empty());
            assert(frame_wire(h, payload) + Seq::<u8>::empty() =~= frame_wire(h, payload));
        }
    }
    let plaintext = match opened {
        Ok(p) => p,
        Err(e) => return Err(RecordError::Crypto(e)),
    };
    match Frame::decode(plaintext.as_slice()) {
        Ok(f) => Ok(f),
        Err(e) => Err(RecordError::Frame(e)),
    }
}

/// What `seal_frame` states of a record it made from a frame under `key`.
pub open spec fn is_sealed_record(key: Seq<u8>, rec: Seq<u8>, h: MuxHeader, payload: Seq<u8>) -> bool {
    let wire = frame_wire(h, payload);
    &&& rec.len() == 2 + NONCE_SIZE + wire.len() + TAG_SIZE
    &&& rec.subrange(0, 2) == be_u16_bytes((NONCE_SIZE + wire.len() + TAG_SIZE) as u16)
    &&& rec.subrange(2, rec.len() as int) == sealed_blob(key, rec.subrange(2, 2 + NONCE_SIZE), wire)
}

/// The blob of a record sealed from a frame (whose header's length is its
/// payload's) meets what `open_frame` asks to give that frame back: opening
/// under the same key returns the frame that was sealed.
pub proof fn lemma_sealed_record_opens(key: Seq<u8>, rec: Seq<u8>, h: MuxHeader, payload: Seq<u8>)
    requires
        is_sealed_record(key, rec, h, payload),
        h.length == payload.len(),
    ensures
        ({
            let blob = rec.subrange(2, rec.len() as int);
            let nonce = rec.subrange(2, 2 + NONCE_SIZE);
            &&& nonce.len() == NONCE_SIZE
            &&& aead_accepts(frame_wire(h, payload).len())
            &&& blob.len() == NONCE_SIZE + frame_wire(h, payload).len() + TAG_SIZE
            &&& blob == sealed_blob(key, nonce, frame_wire(h, payload))
            &&& be_u16_bytes(blob.len() as u16) == rec.subrange(0, 2)
        }),
{
    crate::frame::lemma_frame_roundtrip(h, payload, Seq::empty());
}

} // verus!
