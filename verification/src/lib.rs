//! Tundra: the verified core of a DPI-resistant proxy.
//!
//! The library holds the wire format of multiplexed frames, the
//! authenticated-encryption layer and key derivation, the hybrid key
//! encapsulation, the flow-morphing engine's data model and packet
//! shaping, the server's upstream access rules and configuration parsing.
use vstd::prelude::*;

pub mod client;
pub mod crypto;
pub mod fme;
pub mod frame;
pub mod kem;
pub mod protocol;
pub mod record;
pub mod server;
pub mod text;

verus! {

/// Direction of a tunnelled byte stream.
#[derive(Debug, Clone, Copy, PartialEq, Eq, Structural)]
pub enum Direction {
    Upstream,
    Downstream,
}

/// Errors of the tunnel protocol.
#[derive(Debug)]
pub enum ProtocolError {
    InvalidMagic,
    AuthFailed,
    DecryptionFailed,
    StreamNotFound(u32),
    StreamReset,
    FrameTooLarge(usize),
    Kem(String),
    Io(std::io::Error),
}

/// Declares std's I/O error so that it can be carried in `ProtocolError::Io`.
#[verifier::external_type_specification]
#[verifier::external_body]
pub struct ExIoError(std::io::Error);

/// Magic number that starts every frame on the wire ("TNDR").
pub const MAGIC: u32 = 0x544E4452;
/// Largest frame that the tunnel carries.
pub const MAX_FRAME_SIZE: usize = 65535;
/// Bound on stream identifiers.
pub const MAX_STREAMS: u32 = 0x8000_0000;

} // verus!
