//! Rules of the client's session pool: its pre-shared key, when a session
//! is replaced by a fresh one, and which stream numbers may be used.
use vstd::prelude::*;
use vstd::string::StringSliceAdditionalSpecFns;

use crate::text::{hex_decoded, hex_digit_value, hex_text, hex_value, lemma_hex_roundtrip};
use crate::MAX_STREAMS;

verus! {

/// Why a pre-shared key on the command line was refused.
#[derive(Debug, Clone, Copy, PartialEq, Eq, Structural)]
pub enum PskFormatError {
    /// Not exactly 64 hexadecimal characters.
    Not64HexChars,
}

/// `s` is 64 hexadecimal digits.
pub open spec fn is_psk_text(s: Seq<u8>) -> bool {
    s.len() == 64 && forall|i: int| 0 <= i < s.len() ==> (#[trigger] hex_value(s[i])) is Some
}

/// A 32-byte key written as hexadecimal, in either case, is a valid key text
/// that decodes back to the key; text of another length than 64 never is.
pub proof fn lemma_psk_text_roundtrip(key: Seq<u8>, upper: bool, other: Seq<u8>)
    requires
        key.len() == 32,
        other.len() != 64,
    ensures
        is_psk_text(hex_text(key, upper)),
        hex_decoded(hex_text(key, upper)) == Some(key),
        !is_psk_text(other),
{
    lemma_hex_roundtrip(key, upper, seq![0u8]);
}

/// Parses a pre-shared key given as exactly 64 hexadecimal characters into
/// its 32 bytes.
pub fn parse_psk_hex(text: &str) -> (r: Result<[u8; 32], PskFormatError>)
    ensures
        !is_psk_text(text.spec_bytes()) ==> r == Err::<[u8; 32], PskFormatError>(PskFormatError::Not64HexChars),
        is_psk_text(text.spec_bytes()) ==> (r matches Ok(k) && hex_decoded(text.spec_bytes()) == Some(k@)),
{
    let s = text.as_bytes();
    if s.len() != 64 {
        return Err(PskFormatError::Not64HexChars);
    }
    let mut i: usize = 0;
    while i < 64
        invariant
            s@ == text.spec_bytes(),
            s@.len() == 64,
            i <= 64,
            forall|j: int| 0 <= j < i ==> (#[trigger] hex_value(s@[j])) is Some,
        decreases 64 - i,
    {
        if hex_digit_value(s[i]).is_none() {
            assert(hex_value(s@[i as int]) is None);
            return Err(PskFormatError::Not64HexChars);
        }
        i = i + 1;
    }
    let mut k = [0u8; 32];
    let mut j: usize = 0;
    while j < 32
        invariant
            s@.len() == 64,
            is_psk_text(s@),
            j <= 32,
            k@.len() == 32,
            forall|m: int|
                0 <= m < j ==> k@[m] == (hex_value(s@[2 * m])->0 * 16 + hex_value(s@[2 * m + 1])->0) as u8,
        decreases 32 - j,
    {
        let hi = hex_digit_value(s[2 * j]);
        let lo = hex_digit_value(s[2 * j + 1]);
        assert(hex_value(s@[2 * j as int]) is Some);
        assert(hex_value(s@[2 * j + 1]) is Some);
        let h = hi.unwrap();
        let l = lo.unwrap();
        k[j] = h * 16 + l;
        j = j + 1;
    }
    assert(k@ =~= hex_decoded(s@)->0);
    Ok(k)
}

/// A session is replaced once it is older than the age limit or has sent
/// more than the byte limit.
pub fn needs_rotation(age_nanos: u128, bytes_sent: u64, max_age_nanos: u128, max_bytes: u64) -> (r: bool)
    ensures
        r == (age_nanos > max_age_nanos || bytes_sent > max_bytes),
{
    age_nanos > max_age_nanos || bytes_sent > max_bytes
}

/// The sessions that a pool holds, by identifier: the active one and the
/// one being drained after a rotation.
#[derive(Debug, Clone, Copy, PartialEq, Eq, Structural)]
pub struct PoolSlots {
    pub active: Option<u64>,
    pub draining: Option<u64>,
}

/// What getting a session from a pool does.
#[derive(Debug, Clone, Copy, PartialEq, Eq, Structural)]
pub enum PoolStep {
    /// The active session is used as it is; no connection is made.
    Reuse(u64),
    /// A new session is established and becomes the active one. `retired` is
    /// the old active session, which moves to draining; `aborted` is the
    /// session that was draining before it, whose tasks are stopped.
    Establish { retired: Option<u64>, aborted: Option<u64> },
}

/// The step of getting a session from `slots`, with the active session's
/// age and bytes sent and the pool's limits.
pub open spec fn pool_step_of(slots: PoolSlots, age_nanos: u128, bytes_sent: u64, max_age_nanos: u128, max_bytes: u64) -> PoolStep {
    match slots.active {
        None => PoolStep::Establish { retired: None, aborted: None },
        Some(a) => if age_nanos > max_age_nanos || bytes_sent > max_bytes {
            PoolStep::Establish { retired: Some(a), aborted: slots.draining }
        } else {
            PoolStep::Reuse(a)
        },
    }
}

/// The slots once a step is taken and, for `Establish`, the new session
/// `fresh` is in place.
pub open spec fn slots_after(slots: PoolSlots, step: PoolStep, fresh: u64) -> PoolSlots {
    match step {
        PoolStep::Reuse(_) => slots,
        PoolStep::Establish { retired, .. } => PoolSlots {
            active: Some(fresh),
            draining: if retired is Some {
                retired
            } else {
                slots.draining
            },
        },
    }
}

/// Decides what getting a session does: establish one where there is none;
/// rotate an active session past either limit (it moves to draining, and
/// the session draining before it is stopped); else reuse it.
pub fn pool_step(slots: PoolSlots, age_nanos: u128, bytes_sent: u64, max_age_nanos: u128, max_bytes: u64) -> (r: PoolStep)
    ensures
        r == pool_step_of(slots, age_nanos, bytes_sent, max_age_nanos, max_bytes),
{
    match slots.active {
        None => PoolStep::Establish { retired: None, aborted: None },
        Some(a) => if needs_rotation(age_nanos, bytes_sent, max_age_nanos, max_bytes) {
            PoolStep::Establish { retired: Some(a), aborted: slots.draining }
        } else {
            PoolStep::Reuse(a)
        },
    }
}

/// Session churn: an active session past its age or byte limit is replaced
/// by a newly established one, and becomes the draining session (the one
/// draining before it is stopped); within both limits the active session
/// itself is used and the slots stay as they are.
pub proof fn lemma_session_churn(
    slots: PoolSlots,
    age_nanos: u128,
    bytes_sent: u64,
    max_age_nanos: u128,
    max_bytes: u64,
    fresh: u64,
)
    requires
        slots.active is Some,
        slots.active != Some(fresh),
    ensures
        age_nanos > max_age_nanos || bytes_sent > max_bytes ==> {
            let step = pool_step_of(slots, age_nanos, bytes_sent, max_age_nanos, max_bytes);
            &&& step == PoolStep::Establish { retired: slots.active, aborted: slots.draining }
            &&& slots_after(slots, step, fresh).active == Some(fresh)
            &&& slots_after(slots, step, fresh).active != slots.active
            &&& slots_after(slots, step, fresh).draining == slots.active
        },
        !(age_nanos > max_age_nanos || bytes_sent > max_bytes) ==> {
            let step = pool_step_of(slots, age_nanos, bytes_sent, max_age_nanos, max_bytes);
            &&& step == PoolStep::Reuse(slots.active->0)
            &&& slots_after(slots, step, fresh) == slots
        },
{
}

/// Why a stream could not be opened.
#[derive(Debug, Clone, Copy, PartialEq, Eq, Structural)]
pub enum StreamError {
    /// The session has used up its stream numbers.
    Exhausted,
}

/// Accepts a stream number below `MAX_STREAMS`.
pub fn check_stream_id(stream_id: u32) -> (r: Result<u32, StreamError>)
    ensures
        stream_id < MAX_STREAMS ==> r == Ok::<u32, StreamError>(stream_id),
        stream_id >= MAX_STREAMS ==> r == Err::<u32, StreamError>(StreamError::Exhausted),
{
    if stream_id >= MAX_STREAMS {
        Err(StreamError::Exhausted)
    } else {
        Ok(stream_id)
    }
}

} // verus!
