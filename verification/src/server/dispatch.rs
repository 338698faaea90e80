//! What the server does with each frame that a client sends inside the
//! tunnel, and the `host:port` target that opening a stream names.
use vstd::prelude::*;

use crate::frame::{push_all, real_data_of, Frame, MuxCommand};
use crate::text::{
    find_byte, first_index_of, lemma_first_index_at, lossy_text, parse_u16, split_once_at, u16_of_text, utf8_lossy_bytes,
};
use vstd::utf8::valid_utf8;

verus! {

/// Port of a target that names none, or none that parses.
pub const DEFAULT_PORT: u16 = 80;

/// The host and port that a stream-opening payload names: the payload read
/// as UTF-8 with replacement characters, split at its first colon; the port
/// is the rest parsed as a 16-bit decimal number, `DEFAULT_PORT` where there
/// is no colon or the rest does not parse.
pub open spec fn target_of(payload: Seq<u8>) -> (Seq<u8>, u16) {
    let text = lossy_text(payload);
    match split_once_at(text, 58) {
        Some((host, port_text)) => (
            host,
            match u16_of_text(port_text) {
                Some(p) => p,
                None => DEFAULT_PORT,
            },
        ),
        None => (text, DEFAULT_PORT),
    }
}

/// A stream-opening payload in UTF-8 is split at its first colon: the host
/// is what comes before it and the port is what follows, read as a 16-bit
/// decimal number, port 80 where that does not parse (so "example.com:http"
/// opens example.com on port 80); a payload without a colon is all host, on
/// port 80.
pub proof fn lemma_target_split(host: Seq<u8>, rest: Seq<u8>, plain: Seq<u8>)
    requires
        valid_utf8(host + seq![58u8] + rest),
        forall|i: int| 0 <= i < host.len() ==> host[i] != 58,
        valid_utf8(plain),
        forall|i: int| 0 <= i < plain.len() ==> plain[i] != 58,
    ensures
        target_of(host + seq![58u8] + rest) == (
            host,
            match u16_of_text(rest) {
                Some(p) => p,
                None => 80u16,
            },
        ),
        target_of(plain) == (plain, 80u16),
{
    let t = host + seq![58u8] + rest;
    assert(lossy_text(t) == t);
    lemma_first_index_at(t, 58, host.len() as int);
    assert(t.subrange(0, host.len() as int) =~= host);
    assert(t.subrange(host.len() as int + 1, t.len() as int) =~= rest);
    assert(lossy_text(plain) == plain);
    assert(first_index_of(plain, 58) is None);
}

/// Splits a stream-opening payload into its host and port.
pub fn parse_target(payload: &[u8]) -> (r: (Vec<u8>, u16))
    ensures
        (r.0@, r.1) == target_of(payload@),
{
    let text = utf8_lossy_bytes(payload);
    let t = text.as_slice();
    let n = t.len();
    match find_byte(t, 58) {
        Some(i) => {
            let mut host: Vec<u8> = Vec::new();
            push_all(&mut host, &t[0..i]);
            let port = match parse_u16(&t[i + 1..n]) {
                Some(p) => p,
                None => DEFAULT_PORT,
            };
            (host, port)
        },
        None => (text, DEFAULT_PORT),
    }
}

/// What the server does with a frame from the client.
#[derive(Debug)]
pub enum ServerAction {
    /// Write this data to the stream's upstream connection, if it is open.
    Forward { stream_id: u32, data: Vec<u8> },
    /// Open an upstream connection for the stream, subject to the access rules.
    Open { stream_id: u32, host: Vec<u8>, port: u16 },
    /// Forget the stream.
    Remove { stream_id: u32 },
    /// Answer with a pong.
    Pong,
    /// Nothing to do.
    Ignore,
}

/// Decides what to do with a frame from the client: data with a non-empty
/// real part is forwarded to its stream, a new stream is opened to the target
/// its payload names, a close forgets the stream, a ping is answered, and
/// anything else is ignored.
pub fn server_action(frame: &Frame) -> (r: ServerAction)
    ensures
        frame.header.command == MuxCommand::Data ==> if real_data_of(frame.payload@).len() > 0 {
            r matches ServerAction::Forward { stream_id, data } && stream_id == frame.header.stream_id && data@
                == real_data_of(frame.payload@)
        } else {
            r is Ignore
        },
        frame.header.command == MuxCommand::NewStream ==> (r matches ServerAction::Open { stream_id, host, port }
            && stream_id == frame.header.stream_id && (host@, port) == target_of(frame.payload@)),
        frame.header.command == MuxCommand::Close ==> (r matches ServerAction::Remove { stream_id } && stream_id
            == frame.header.stream_id),
        frame.header.command == MuxCommand::Ping ==> r is Pong,
        frame.header.command != MuxCommand::Data && frame.header.command != MuxCommand::NewStream
            && frame.header.command != MuxCommand::Close && frame.header.command != MuxCommand::Ping ==> r is Ignore,
{
    let sid = frame.header.stream_id;
    match frame.header.command {
        MuxCommand::Data => {
            let d = frame.real_data();
            if d.len() > 0 {
                let mut data: Vec<u8> = Vec::new();
                push_all(&mut data, d);
                ServerAction::Forward { stream_id: sid, data }
            } else {
                ServerAction::Ignore
            }
        },
        MuxCommand::NewStream => {
            let (host, port) = parse_target(frame.payload.as_slice());
            ServerAction::Open { stream_id: sid, host, port }
        },
        MuxCommand::Close => ServerAction::Remove { stream_id: sid },
        MuxCommand::Ping => ServerAction::Pong,
        _ => ServerAction::Ignore,
    }
}

} // verus!
