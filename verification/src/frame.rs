//! Multiplexed frames and their wire format.
//!
//! Wire layout of a frame: `[magic:4][cmd:1][stream_id:4][length:2][payload:length]`,
//! all integers big-endian; the fixed overhead is 11 bytes.
use vstd::prelude::*;

use crate::{ProtocolError, MAGIC};

verus! {

/// The command carried by a frame header.
#[derive(Debug, Clone, Copy, PartialEq, Eq, Structural)]
pub enum MuxCommand {
    NewStream,
    Data,
    Close,
    Ping,
    Pong,
    Auth,
    AuthAck,
    Padding,
    Challenge,
    KeyConfirm,
}

/// The wire code of a command.
pub open spec fn command_code(c: MuxCommand) -> u8 {
    match c {
        MuxCommand::NewStream => 0,
        MuxCommand::Data => 1,
        MuxCommand::Close => 2,
        MuxCommand::Ping => 3,
        MuxCommand::Pong => 4,
        MuxCommand::Auth => 5,
        MuxCommand::AuthAck => 6,
        MuxCommand::Padding => 7,
        MuxCommand::Challenge => 8,
        MuxCommand::KeyConfirm => 9,
    }
}

/// The command whose wire code is `v`, if any.
pub open spec fn command_of_code(v: u8) -> Option<MuxCommand> {
    if v == 0 {
        Some(MuxCommand::NewStream)
    } else if v == 1 {
        Some(MuxCommand::Data)
    } else if v == 2 {
        Some(MuxCommand::Close)
    } else if v == 3 {
        Some(MuxCommand::Ping)
    } else if v == 4 {
        Some(MuxCommand::Pong)
    } else if v == 5 {
        Some(MuxCommand::Auth)
    } else if v == 6 {
        Some(MuxCommand::AuthAck)
    } else if v == 7 {
        Some(MuxCommand::Padding)
    } else if v == 8 {
        Some(MuxCommand::Challenge)
    } else if v == 9 {
        Some(MuxCommand::KeyConfirm)
    } else {
        None
    }
}

impl MuxCommand {
    /// Decodes a wire code; codes above 9 name no command.
    pub fn from_u8(v: u8) -> (r: Option<MuxCommand>)
        ensures
            r == command_of_code(v),
    {
        match v {
            0 => Some(MuxCommand::NewStream),
            1 => Some(MuxCommand::Data),
            2 => Some(MuxCommand::Close),
            3 => Some(MuxCommand::Ping),
            4 => Some(MuxCommand::Pong),
            5 => Some(MuxCommand::Auth),
            6 => Some(MuxCommand::AuthAck),
            7 => Some(MuxCommand::Padding),
            8 => Some(MuxCommand::Challenge),
            9 => Some(MuxCommand::KeyConfirm),
            _ => None,
        }
    }

    /// The wire code of this command.
    pub fn to_u8(&self) -> (r: u8)
        ensures
            r == command_code(*self),
    {
        match self {
            MuxCommand::NewStream => 0,
            MuxCommand::Data => 1,
            MuxCommand::Close => 2,
            MuxCommand::Ping => 3,
            MuxCommand::Pong => 4,
            MuxCommand::Auth => 5,
            MuxCommand::AuthAck => 6,
            MuxCommand::Padding => 7,
            MuxCommand::Challenge => 8,
            MuxCommand::KeyConfirm => 9,
        }
    }
}

/// Every command's code decodes back to that command.
pub proof fn lemma_command_code_roundtrip(c: MuxCommand)
    ensures
        command_of_code(command_code(c)) == Some(c),
{
}

/// Header of a multiplexed frame.
#[derive(Debug, Clone, Copy, PartialEq, Eq, Structural)]
pub struct MuxHeader {
    pub command: MuxCommand,
    pub stream_id: u32,
    pub length: u16,
}

/// Size of an encoded header: command, stream id and length.
pub const HEADER_WIRE_SIZE: usize = 7;

/// Fixed per-frame overhead on the wire: magic and header.
pub const FRAME_WIRE_OVERHEAD: usize = 11;

/// Target size on the wire of a handshake frame.
pub const HANDSHAKE_PAD_SIZE: usize = 1400;

/// Big-endian bytes of a 32-bit integer.
pub open spec fn be_u32_bytes(x: u32) -> Seq<u8> {
    seq![(x / 0x1000000) as u8, ((x / 0x10000) % 0x100) as u8, ((x / 0x100) % 0x100) as u8, (x % 0x100) as u8]
}

/// Big-endian bytes of a 16-bit integer.
pub open spec fn be_u16_bytes(x: u16) -> Seq<u8> {
    seq![(x / 0x100) as u8, (x % 0x100) as u8]
}

/// Value of four big-endian bytes.
pub open spec fn be_u32_value(b0: u8, b1: u8, b2: u8, b3: u8) -> u32 {
    (b0 * 0x1000000 + b1 * 0x10000 + b2 * 0x100 + b3) as u32
}

/// Value of two big-endian bytes.
pub open spec fn be_u16_value(b0: u8, b1: u8) -> u16 {
    (b0 * 0x100 + b1) as u16
}

/// Value of two little-endian bytes.
pub open spec fn le_u16_value(b0: u8, b1: u8) -> u16 {
    (b0 + b1 * 0x100) as u16
}

/// Little-endian bytes of a 16-bit integer.
pub open spec fn le_u16_bytes(x: u16) -> Seq<u8> {
    seq![(x % 0x100) as u8, (x / 0x100) as u8]
}

impl MuxHeader {
    /// The seven header bytes on the wire.
    pub open spec fn wire(self) -> Seq<u8> {
        seq![command_code(self.command)] + be_u32_bytes(self.stream_id) + be_u16_bytes(self.length)
    }
}

/// What decoding seven header bytes gives: the header, or `None` where the
/// command byte names no command.
pub open spec fn header_of_bytes(b: Seq<u8>) -> Option<MuxHeader> {
    match command_of_code(b[0]) {
        Some(c) => Some(
            MuxHeader {
                command: c,
                stream_id: be_u32_value(b[1], b[2], b[3], b[4]),
                length: be_u16_value(b[5], b[6]),
            },
        ),
        None => None,
    }
}

proof fn lemma_be_u32_split(x: u32)
    ensures
        (x >> 24) as u8 == (x / 0x1000000) as u8,
        (x >> 16) as u8 == ((x / 0x10000) % 0x100) as u8,
        (x >> 8) as u8 == ((x / 0x100) % 0x100) as u8,
        x as u8 == (x % 0x100) as u8,
{
    assert((x >> 24) as u8 == (x / 0x1000000) as u8) by (bit_vector);
    assert((x >> 16) as u8 == ((x / 0x10000) % 0x100) as u8) by (bit_vector);
    assert((x >> 8) as u8 == ((x / 0x100) % 0x100) as u8) by (bit_vector);
    assert(x as u8 == (x % 0x100) as u8) by (bit_vector);
}

proof fn lemma_be_u16_split(x: u16)
    ensures
        (x >> 8) as u8 == (x / 0x100) as u8,
        x as u8 == (x % 0x100) as u8,
{
    assert((x >> 8) as u8 == (x / 0x100) as u8) by (bit_vector);
    assert(x as u8 == (x % 0x100) as u8) by (bit_vector);
}

proof fn lemma_be_u32_join(b0: u8, b1: u8, b2: u8, b3: u8)
    ensures
        ((b0 as u32) << 24) | ((b1 as u32) << 16) | ((b2 as u32) << 8) | (b3 as u32)
            == be_u32_value(b0, b1, b2, b3),
{
    assert(((b0 as u32) << 24) | ((b1 as u32) << 16) | ((b2 as u32) << 8) | (b3 as u32) == (b0
        * 0x1000000 + b1 * 0x10000 + b2 * 0x100 + b3) as u32) by (bit_vector);
}

proof fn lemma_be_u16_join(b0: u8, b1: u8)
    ensures
        ((b0 as u16) << 8) | (b1 as u16) == be_u16_value(b0, b1),
{
    assert(((b0 as u16) << 8) | (b1 as u16) == (b0 * 0x100 + b1) as u16) by (bit_vector);
}

/// Splitting a 32-bit integer into big-endian bytes and joining them gives it back.
pub proof fn lemma_be_u32_roundtrip(x: u32)
    ensures
        be_u32_value(
            be_u32_bytes(x)[0],
            be_u32_bytes(x)[1],
            be_u32_bytes(x)[2],
            be_u32_bytes(x)[3],
        ) == x,
{
    let b = be_u32_bytes(x);
    assert(b[0] == (x / 0x1000000) as u8);
    assert(x / 0x1000000 < 0x100);
}

/// Splitting a 16-bit integer into big-endian bytes and joining them gives it back.
pub proof fn lemma_be_u16_roundtrip(x: u16)
    ensures
        be_u16_value(be_u16_bytes(x)[0], be_u16_bytes(x)[1]) == x,
{
}

/// A header decodes back from its own seven wire bytes.
pub proof fn lemma_header_roundtrip(h: MuxHeader)
    ensures
        h.wire().len() == HEADER_WIRE_SIZE,
        header_of_bytes(h.wire()) == Some(h),
{
    lemma_be_u32_roundtrip(h.stream_id);
    lemma_be_u16_roundtrip(h.length);
    let w = h.wire();
    assert(w[0] == command_code(h.command));
    assert(w[1] == be_u32_bytes(h.stream_id)[0]);
    assert(w[2] == be_u32_bytes(h.stream_id)[1]);
    assert(w[3] == be_u32_bytes(h.stream_id)[2]);
    assert(w[4] == be_u32_bytes(h.stream_id)[3]);
    assert(w[5] == be_u16_bytes(h.length)[0]);
    assert(w[6] == be_u16_bytes(h.length)[1]);
}

impl MuxHeader {
    /// Encodes the header as its seven wire bytes.
    pub fn encode(&self) -> (r: [u8; 7])
        ensures
            r@ == self.wire(),
    {
        let cmd = self.command.to_u8();
        let sid = self.stream_id;
        let len = self.length;
        proof {
            lemma_be_u32_split(sid);
            lemma_be_u16_split(len);
        }
        let r = [
            cmd,
            (sid >> 24) as u8,
            (sid >> 16) as u8,
            (sid >> 8) as u8,
            sid as u8,
            (len >> 8) as u8,
            len as u8,
        ];
        assert(r@ =~= self.wire());
        r
    }

    /// Decodes seven header bytes; a command byte above 9 is refused as
    /// `InvalidMagic`.
    pub fn decode(buf: &[u8; 7]) -> (r: Result<MuxHeader, ProtocolError>)
        ensures
            match header_of_bytes(buf@) {
                Some(h) => r matches Ok(g) && g == h,
                None => r matches Err(ProtocolError::InvalidMagic),
            },
    {
        let cmd = match MuxCommand::from_u8(buf[0]) {
            Some(c) => c,
            None => return Err(ProtocolError::InvalidMagic),
        };
        proof {
            lemma_be_u32_join(buf@[1], buf@[2], buf@[3], buf@[4]);
            lemma_be_u16_join(buf@[5], buf@[6]);
        }
        let sid = ((buf[1] as u32) << 24) | ((buf[2] as u32) << 16) | ((buf[3] as u32) << 8) | (
        buf[4] as u32);
        let length = ((buf[5] as u16) << 8) | (buf[6] as u16);
        Ok(MuxHeader { command: cmd, stream_id: sid, length })
    }
}


/// A multiplexed frame: header and payload.
pub struct Frame {
    pub header: MuxHeader,
    pub payload: Vec<u8>,
}

/// The bytes of a frame on the wire.
pub open spec fn frame_wire(h: MuxHeader, payload: Seq<u8>) -> Seq<u8> {
    be_u32_bytes(MAGIC) + h.wire() + payload
}

/// What decoding `d` gives: the header and the payload, or the error that the
/// decoder reports. Bytes after the payload are ignored.
pub open spec fn frame_of_bytes(d: Seq<u8>) -> Result<(MuxHeader, Seq<u8>), ProtocolError> {
    if d.len() < FRAME_WIRE_OVERHEAD {
        Err(ProtocolError::FrameTooLarge(d.len() as usize))
    } else if be_u32_value(d[0], d[1], d[2], d[3]) != MAGIC {
        Err(ProtocolError::InvalidMagic)
    } else {
        match header_of_bytes(d.subrange(4, 11)) {
            None => Err(ProtocolError::InvalidMagic),
            Some(h) => if 11 + h.length > d.len() {
                Err(ProtocolError::FrameTooLarge(d.len() as usize))
            } else {
                Ok((h, d.subrange(11, 11 + h.length)))
            },
        }
    }
}

/// `n` zero bytes.
pub open spec fn zeros(n: nat) -> Seq<u8> {
    Seq::new(n, |i: int| 0u8)
}

/// Payload of a handshake frame: zero-padded up to the handshake size.
pub open spec fn handshake_payload(p: Seq<u8>) -> Seq<u8> {
    if p.len() < (HANDSHAKE_PAD_SIZE - FRAME_WIRE_OVERHEAD) {
        p + zeros((HANDSHAKE_PAD_SIZE - FRAME_WIRE_OVERHEAD - p.len()) as nat)
    } else {
        p
    }
}

/// Payload of a padded data frame: the real length (truncated to 16 bits,
/// little-endian), the data, then zeros up to `total` bytes.
pub open spec fn padded_payload(data: Seq<u8>, total: int) -> Seq<u8> {
    let prefix = le_u16_bytes((data.len() % 0x10000) as u16) + data;
    if prefix.len() < total {
        prefix + zeros((total - prefix.len()) as nat)
    } else {
        prefix
    }
}

/// The real data carried by a payload: the prefixed data where the
/// little-endian length prefix fits, else the whole payload.
pub open spec fn real_data_of(p: Seq<u8>) -> Seq<u8> {
    if p.len() < 2 {
        p
    } else if le_u16_value(p[0], p[1]) + 2 <= p.len() {
        p.subrange(2, 2 + le_u16_value(p[0], p[1]))
    } else {
        p
    }
}

/// Appends `s` to `v`.
pub(crate) fn push_all(v: &mut Vec<u8>, s: &[u8])
    ensures
        final(v)@ == old(v)@ + s@,
{
    let mut i: usize = 0;
    while i < s.len()
        invariant
            i <= s@.len(),
            v@ == old(v)@ + s@.subrange(0, i as int),
        decreases s@.len() - i,
    {
        v.push(s[i]);
        i = i + 1;
        assert(s@.subrange(0, i as int) =~= s@.subrange(0, (i - 1) as int).push(s@[i - 1]));
    }
    assert(s@.subrange(0, s@.len() as int) =~= s@);
}

/// Appends zeros to `v` until it has `target` bytes.
pub(crate) fn pad_with_zeros(v: &mut Vec<u8>, target: usize)
    requires
        old(v)@.len() <= target,
    ensures
        final(v)@ == old(v)@ + zeros((target - old(v)@.len()) as nat),
{
    let ghost start = v@.len();
    while v.len() < target
        invariant
            start <= v@.len() <= target,
            v@ == old(v)@ + zeros((v@.len() - start) as nat),
            start == old(v)@.len(),
        decreases target - v@.len(),
    {
        v.push(0u8);
        assert(zeros((v@.len() - start) as nat) =~= zeros((v@.len() - 1 - start) as nat).push(0u8));
    }
}

impl Frame {
    /// A frame with the given command, stream and payload; the header's
    /// length is the payload's.
    pub fn new(command: MuxCommand, stream_id: u32, payload: Vec<u8>) -> (r: Frame)
        requires
            payload@.len() <= u16::MAX,
        ensures
            r.header == (MuxHeader { command, stream_id, length: payload@.len() as u16 }),
            r.payload@ == payload@,
    {
        let length = payload.len() as u16;
        Frame { header: MuxHeader { command, stream_id, length }, payload }
    }

    /// A handshake frame: the payload is zero-padded so that the frame
    /// takes at least `HANDSHAKE_PAD_SIZE` bytes on the wire.
    pub fn new_handshake(command: MuxCommand, stream_id: u32, payload: Vec<u8>) -> (r: Frame)
        requires
            payload@.len() <= u16::MAX,
        ensures
            r.payload@ == handshake_payload(payload@),
            r.header == (MuxHeader {
                command,
                stream_id,
                length: handshake_payload(payload@).len() as u16,
            }),
    {
        let target = HANDSHAKE_PAD_SIZE - FRAME_WIRE_OVERHEAD;
        let mut padded = payload;
        if padded.len() < target {
            pad_with_zeros(&mut padded, target);
        }
        Frame::new(command, stream_id, padded)
    }

    /// A data frame whose payload is the length of `data` (little-endian,
    /// 16 bits), `data`, and zero padding up to `total_payload_len` bytes.
    pub fn new_padded(command: MuxCommand, stream_id: u32, data: Vec<u8>, total_payload_len: usize) -> (r: Frame)
        requires
            data@.len() + 2 <= usize::MAX,
        ensures
            r.payload@ == padded_payload(data@, total_payload_len as int),
            r.header == (MuxHeader {
                command,
                stream_id,
                length: (padded_payload(data@, total_payload_len as int).len() % 0x10000) as u16,
            }),
    {
        let real_len = (data.len() % 0x10000) as u16;
        let target = if total_payload_len > 2 + data.len() { total_payload_len } else { 2 + data.len() };
        let mut payload: Vec<u8> = Vec::new();
        payload.push((real_len % 0x100) as u8);
        payload.push((real_len / 0x100) as u8);
        assert(payload@ =~= le_u16_bytes(real_len));
        push_all(&mut payload, data.as_slice());
        if payload.len() < target {
            pad_with_zeros(&mut payload, target);
        }
        let length = (payload.len() % 0x10000) as u16;
        Frame { header: MuxHeader { command, stream_id, length }, payload }
    }

    /// The real data of the payload (see `real_data_of`).
    pub fn real_data(&self) -> (r: &[u8])
        ensures
            r@ == real_data_of(self.payload@),
    {
        let p = self.payload.as_slice();
        if p.len() < 2 {
            return p;
        }
        let real_len = (p[0] as usize) + (p[1] as usize) * 0x100;
        if real_len + 2 <= p.len() {
            return &p[2..2 + real_len];
        }
        p
    }

    /// The whole payload, padding included.
    pub fn raw_data(&self) -> (r: &[u8])
        ensures
            r@ == self.payload@,
    {
        self.payload.as_slice()
    }

    /// The frame's bytes on the wire.
    pub fn encode(&self) -> (r: Vec<u8>)
        ensures
            r@ == frame_wire(self.header, self.payload@),
    {
        let mut buf: Vec<u8> = Vec::new();
        let magic: u32 = MAGIC;
        proof {
            lemma_be_u32_split(magic);
        }
        buf.push((magic >> 24) as u8);
        buf.push((magic >> 16) as u8);
        buf.push((magic >> 8) as u8);
        buf.push(magic as u8);
        assert(buf@ =~= be_u32_bytes(MAGIC));
        let h = self.header.encode();
        push_all(&mut buf, &h);
        push_all(&mut buf, self.payload.as_slice());
        buf
    }

    /// Decodes a frame from the front of `data`.
    pub fn decode(data: &[u8]) -> (r: Result<Frame, ProtocolError>)
        ensures
            match frame_of_bytes(data@) {
                Ok((h, p)) => r matches Ok(f) && f.header == h && f.payload@ == p,
                Err(e) => r matches Err(e2) && e2 == e,
            },
    {
        if data.len() < FRAME_WIRE_OVERHEAD {
            return Err(ProtocolError::FrameTooLarge(data.len()));
        }
        proof {
            lemma_be_u32_join(data@[0], data@[1], data@[2], data@[3]);
        }
        let magic = ((data[0] as u32) << 24) | ((data[1] as u32) << 16) | ((data[2] as u32) << 8)
            | (data[3] as u32);
        if magic != MAGIC {
            return Err(ProtocolError::InvalidMagic);
        }
        let header_bytes: [u8; 7] = [data[4], data[5], data[6], data[7], data[8], data[9], data[10]];
        assert(header_bytes@ =~= data@.subrange(4, 11));
        let header = match MuxHeader::decode(&header_bytes) {
            Ok(h) => h,
            Err(e) => return Err(e),
        };
        let payload_end = FRAME_WIRE_OVERHEAD + header.length as usize;
        if payload_end > data.len() {
            return Err(ProtocolError::FrameTooLarge(data.len()));
        }
        let mut payload: Vec<u8> = Vec::new();
        push_all(&mut payload, &data[FRAME_WIRE_OVERHEAD..payload_end]);
        Ok(Frame { header, payload })
    }

    /// The fixed per-frame overhead on the wire, in bytes.
    pub fn wire_overhead() -> (r: usize)
        ensures
            r == FRAME_WIRE_OVERHEAD,
    {
        FRAME_WIRE_OVERHEAD
    }

    /// The smallest possible frame on the wire, in bytes.
    pub fn min_wire_size() -> (r: usize)
        ensures
            r == FRAME_WIRE_OVERHEAD,
    {
        FRAME_WIRE_OVERHEAD
    }
}

/// A frame decodes back from its own wire bytes, whatever follows them,
/// when its header's length is its payload's.
pub proof fn lemma_frame_roundtrip(h: MuxHeader, payload: Seq<u8>, rest: Seq<u8>)
    requires
        h.length == payload.len(),
    ensures
        frame_wire(h, payload).len() == FRAME_WIRE_OVERHEAD + payload.len(),
        frame_of_bytes(frame_wire(h, payload) + rest) == Ok::<(MuxHeader, Seq<u8>), ProtocolError>((h, payload)),
{
    lemma_header_roundtrip(h);
    lemma_be_u32_roundtrip(MAGIC);
    let d = frame_wire(h, payload) + rest;
    let m = be_u32_bytes(MAGIC);
    assert(d.subrange(4, 11) =~= h.wire());
    assert(d.subrange(11, 11 + h.length) =~= payload);
    assert(d[0] == m[0] && d[1] == m[1] && d[2] == m[2] && d[3] == m[3]);
}

/// The real data of a padded payload is the data it was built from, for data
/// of at most 65535 bytes.
pub proof fn lemma_padded_real_data(data: Seq<u8>, total: int)
    requires
        data.len() <= u16::MAX,
    ensures
        real_data_of(padded_payload(data, total)) == data,
        padded_payload(data, total).len() == if total > data.len() + 2 { total } else { data.len() + 2int },
{
    let p = padded_payload(data, total);
    let n = (data.len() % 0x10000) as u16;
    assert(n == data.len());
    assert(p[0] == (n % 0x100) as u8);
    assert(p[1] == (n / 0x100) as u8);
    assert(le_u16_value(p[0], p[1]) == n);
    assert(p.subrange(2, 2 + n) =~= data);
}

/// The layout of a padded payload for data of at most 65535 bytes: the data's
/// length in two bytes, low byte first, then the data, then zero bytes up to
/// `total` bytes (none where the data and its length fill that already).
pub proof fn lemma_padded_layout(data: Seq<u8>, total: int)
    requires
        data.len() <= u16::MAX,
    ensures
        ({
            let p = padded_payload(data, total);
            let n = data.len() as int;
            &&& p.len() == if total > n + 2 { total } else { n + 2 }
            &&& p[0] as int + 256 * (p[1] as int) == n
            &&& p.subrange(2, n + 2) == data
            &&& forall|i: int| n + 2 <= i < p.len() ==> p[i] == 0u8
        }),
{
    let p = padded_payload(data, total);
    let n = data.len() as int;
    let x = (data.len() % 0x10000) as u16;
    assert(x == n);
    assert((x % 0x100) as u8 as int + 256 * ((x / 0x100) as u8 as int) == x) by (bit_vector);
    assert(p.subrange(2, n + 2) =~= data);
}

/// A handshake frame takes at least `HANDSHAKE_PAD_SIZE` bytes on the wire and
/// begins with the payload it was built from.
pub proof fn lemma_handshake_padding(p: Seq<u8>)
    ensures
        FRAME_WIRE_OVERHEAD + handshake_payload(p).len() >= HANDSHAKE_PAD_SIZE,
        handshake_payload(p).subrange(0, p.len() as int) == p,
{
    assert(handshake_payload(p).subrange(0, p.len() as int) =~= p);
}

/// The first `n` little-endian bytes of `x`.
pub open spec fn le_bytes(x: nat, n: nat) -> Seq<u8>
    decreases n,
{
    if n == 0 {
        Seq::empty()
    } else {
        seq![(x % 256) as u8] + le_bytes(x / 256, (n - 1) as nat)
    }
}

/// Value of little-endian bytes.
pub open spec fn le_value(s: Seq<u8>) -> nat
    decreases s.len(),
{
    if s.len() == 0 {
        0
    } else {
        s[0] as nat + 256 * le_value(s.drop_first())
    }
}

/// `256^n`.
pub open spec fn pow256(n: nat) -> nat
    decreases n,
{
    if n == 0 {
        1
    } else {
        256 * pow256((n - 1) as nat)
    }
}

/// Reading back the `n` little-endian bytes of a value below `256^n` gives it.
pub proof fn lemma_le_roundtrip(x: nat, n: nat)
    requires
        x < pow256(n),
    ensures
        le_bytes(x, n).len() == n,
        le_value(le_bytes(x, n)) == x,
    decreases n,
{
    if n > 0 {
        assert(x / 256 < pow256((n - 1) as nat)) by {
            vstd::arithmetic::div_mod::lemma_multiply_divide_lt(x as int, 256, pow256((n - 1) as nat) as int);
        }
        lemma_le_roundtrip(x / 256, (n - 1) as nat);
        let b = le_bytes(x, n);
        assert(b.drop_first() =~= le_bytes(x / 256, (n - 1) as nat));
        vstd::arithmetic::div_mod::lemma_fundamental_div_mod(x as int, 256);
    }
}

/// The eight little-endian bytes of `x`.
pub fn u64_to_le_bytes(x: u64) -> (r: [u8; 8])
    ensures
        r@ == le_bytes(x as nat, 8),
{
    let x1 = x / 256;
    let x2 = x1 / 256;
    let x3 = x2 / 256;
    let x4 = x3 / 256;
    let x5 = x4 / 256;
    let x6 = x5 / 256;
    let x7 = x6 / 256;
    let r = [
        (x % 256) as u8,
        (x1 % 256) as u8,
        (x2 % 256) as u8,
        (x3 % 256) as u8,
        (x4 % 256) as u8,
        (x5 % 256) as u8,
        (x6 % 256) as u8,
        (x7 % 256) as u8,
    ];
    proof {
        reveal_with_fuel(le_bytes, 9);
    }
    assert(r@ =~= le_bytes(x as nat, 8));
    r
}

/// The value of eight little-endian bytes.
pub fn u64_from_le_bytes(b: &[u8]) -> (r: u64)
    requires
        b@.len() == 8,
    ensures
        r == le_value(b@),
{
    proof {
        reveal_with_fuel(le_value, 9);
        assert(b@.drop_first()[0] == b@[1]);
        assert(b@.drop_first().drop_first()[0] == b@[2]);
        assert(b@.drop_first().drop_first().drop_first()[0] == b@[3]);
        assert(b@.drop_first().drop_first().drop_first().drop_first()[0] == b@[4]);
        assert(b@.drop_first().drop_first().drop_first().drop_first().drop_first()[0] == b@[5]);
        assert(b@.drop_first().drop_first().drop_first().drop_first().drop_first().drop_first()[0] == b@[6]);
        assert(b@.drop_first().drop_first().drop_first().drop_first().drop_first().drop_first().drop_first()[0]
            == b@[7]);
        assert(b@.drop_first().drop_first().drop_first().drop_first().drop_first().drop_first().drop_first().drop_first().len()
            == 0);
    }
    let v7 = b[7] as u64;
    let v6 = b[6] as u64 + 256 * v7;
    let v5 = b[5] as u64 + 256 * v6;
    let v4 = b[4] as u64 + 256 * v5;
    let v3 = b[3] as u64 + 256 * v4;
    let v2 = b[2] as u64 + 256 * v3;
    let v1 = b[1] as u64 + 256 * v2;
    b[0] as u64 + 256 * v1
}

} // verus!
