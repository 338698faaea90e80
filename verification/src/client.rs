//! Client-side data: multiplexed stream events and the desktop proxy's
//! profile and statistics records.
use vstd::prelude::*;

pub mod desktop;
pub mod handshake;
pub mod session;
pub mod socks5;

verus! {

broadcast use vstd::string::group_string_axioms;

/// Data (or the end) of a tunnelled stream, as read from the session.
#[derive(Debug)]
pub struct StreamEvent {
    pub stream_id: u32,
    pub data: Vec<u8>,
    pub is_close: bool,
}

/// A saved connection profile of the desktop proxy.
#[derive(Debug, Clone)]
pub struct ProxyConfig {
    pub server_addr: String,
    pub server_port: u16,
    pub socks_port: u16,
    pub psk: String,
    pub fme: bool,
    pub name: String,
}

impl Default for ProxyConfig {
    /// No server, port 8443, SOCKS on 1080, no key, morphing on, named "Default".
    fn default() -> (r: ProxyConfig)
        ensures
            r.server_addr@.len() == 0,
            r.server_port == 8443,
            r.socks_port == 1080,
            r.psk@.len() == 0,
            r.fme,
            r.name@ == "Default"@,
    {
        ProxyConfig {
            server_addr: String::new(),
            server_port: 8443,
            socks_port: 1080,
            psk: String::new(),
            fme: true,
            name: "Default".to_string(),
        }
    }
}

/// Live statistics of the desktop proxy.
#[derive(Debug, Clone, Copy, PartialEq, Eq, Structural)]
pub struct ProxyStats {
    pub connected: bool,
    pub streams: usize,
    pub bytes_sent: u64,
    pub bytes_recv: u64,
    pub uptime_secs: u64,
}

impl ProxyStats {
    /// Statistics of a proxy that is not connected.
    pub fn disconnected() -> (r: ProxyStats)
        ensures
            r == (ProxyStats { connected: false, streams: 0, bytes_sent: 0, bytes_recv: 0, uptime_secs: 0 }),
    {
        ProxyStats { connected: false, streams: 0, bytes_sent: 0, bytes_recv: 0, uptime_secs: 0 }
    }
}

} // verus!
