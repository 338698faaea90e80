//! Server configuration and its pre-shared key.
use vstd::prelude::*;
use vstd::utf8::encode_utf8;

use crate::client::session::{is_psk_text, parse_psk_hex};
use crate::text::{hex_decoded, parse_u16, u16_of_text};
use vstd::string::{StrSliceExecFns, StringSliceAdditionalSpecFns};

verus! {

broadcast use vstd::string::group_string_axioms;

/// Server configuration (read from TOML by the application).
#[derive(Debug)]
pub struct ServerConfig {
    pub listen_addr: String,
    pub listen_port: u16,
    pub target_domain: String,
    pub psk: Option<String>,
    pub max_connections: usize,
    pub max_per_ip: usize,
    pub handshake_timeout_secs: u64,
}

/// Errors in the configuration.
#[derive(Debug, Clone, Copy, PartialEq, Eq, Structural)]
pub enum ConfigError {
    /// The pre-shared key is not exactly 64 hexadecimal digits (32 bytes).
    InvalidPskLength,
}

/// Default listening address.
pub fn default_listen_addr() -> (r: String)
    ensures
        r@ == "0.0.0.0"@,
{
    "0.0.0.0".to_string()
}

/// Default listening port.
pub fn default_listen_port() -> (r: u16)
    ensures
        r == 8443,
{
    8443
}

/// Default camouflage domain.
pub fn default_target_domain() -> (r: String)
    ensures
        r@ == "www.microsoft.com"@,
{
    "www.microsoft.com".to_string()
}

/// Default global connection limit.
pub fn default_max_connections() -> (r: usize)
    ensures
        r == 1000,
{
    1000
}

/// Default per-IP connection limit.
pub fn default_max_per_ip() -> (r: usize)
    ensures
        r == 10,
{
    10
}

/// Default TLS handshake timeout, in seconds.
pub fn default_handshake_timeout() -> (r: u64)
    ensures
        r == 10,
{
    10
}

/// Position of the last ':' of `s`, if any.
pub open spec fn last_colon(s: Seq<char>) -> Option<int>
    decreases s.len(),
{
    if s.len() == 0 {
        None
    } else if s.last() == ':' {
        Some(s.len() - 1)
    } else {
        last_colon(s.drop_last())
    }
}

/// What a `listen` setting names: the address before its last ':' and the
/// port after it, read as `u16::from_str` reads it; `None` where there is no
/// ':' or the port does not parse.
pub open spec fn listen_parts(s: Seq<char>) -> Option<(Seq<char>, u16)> {
    match last_colon(s) {
        None => None,
        Some(i) => match u16_of_text(encode_utf8(s.subrange(i + 1, s.len() as int))) {
            None => None,
            Some(port) => Some((s.subrange(0, i), port)),
        },
    }
}

proof fn lemma_last_colon_of(addr: Seq<char>, tail: Seq<char>)
    requires
        forall|i: int| 0 <= i < tail.len() ==> tail[i] != ':',
    ensures
        last_colon(addr + seq![':'] + tail) == Some(addr.len() as int),
    decreases tail.len(),
{
    let s = addr + seq![':'] + tail;
    if tail.len() > 0 {
        assert(s.drop_last() =~= addr + seq![':'] + tail.drop_last());
        assert(s.last() == tail.last());
        lemma_last_colon_of(addr, tail.drop_last());
    }
}

proof fn lemma_no_colon(s: Seq<char>)
    requires
        forall|i: int| 0 <= i < s.len() ==> s[i] != ':',
    ensures
        last_colon(s) is None,
    decreases s.len(),
{
    if s.len() > 0 {
        lemma_no_colon(s.drop_last());
    }
}

/// A `listen` setting is split at its last ':', so the address may itself
/// hold colons (as "[::1]" does): the address is everything before that
/// colon and the port is what follows it, read as a 16-bit number, the
/// whole setting refused where that does not parse; a setting without any
/// ':' is refused.
pub proof fn lemma_listen_split(addr: Seq<char>, tail: Seq<char>, plain: Seq<char>)
    requires
        forall|i: int| 0 <= i < tail.len() ==> tail[i] != ':',
        forall|i: int| 0 <= i < plain.len() ==> plain[i] != ':',
    ensures
        listen_parts(addr + seq![':'] + tail) == match u16_of_text(encode_utf8(tail)) {
            Some(port) => Some((addr, port)),
            None => None::<(Seq<char>, u16)>,
        },
        listen_parts(plain) is None,
{
    lemma_last_colon_of(addr, tail);
    let s = addr + seq![':'] + tail;
    assert(s.subrange(addr.len() as int + 1, s.len() as int) =~= tail);
    assert(s.subrange(0, addr.len() as int) =~= addr);
    lemma_no_colon(plain);
}

/// Splits a `listen` setting such as "0.0.0.0:8443" or "[::]:8443" into the
/// address and the port, at its last ':'.
pub fn parse_listen(s: &str) -> (r: Option<(String, u16)>)
    ensures
        match listen_parts(s@) {
            None => r is None,
            Some((addr, port)) => r matches Some((a, p)) && a@ == addr && p == port,
        },
{
    let n = s.unicode_len();
    let mut last: Option<usize> = None;
    let mut j: usize = 0;
    while j < n
        invariant
            n == s@.len(),
            j <= n,
            last_colon(s@.subrange(0, j as int)) == match last {
                None => None::<int>,
                Some(i) => Some(i as int),
            },
            last matches Some(i) ==> i < j,
        decreases n - j,
    {
        assert(s@.subrange(0, j + 1).drop_last() =~= s@.subrange(0, j as int));
        if s.get_char(j) == ':' {
            last = Some(j);
        }
        j = j + 1;
    }
    assert(s@.subrange(0, n as int) =~= s@);
    match last {
        None => None,
        Some(i) => {
            let rest = s.substring_char(i + 1, n);
            match parse_u16(rest.as_bytes()) {
                None => None,
                Some(port) => {
                    let addr = s.substring_char(0, i).to_owned();
                    Some((addr, port))
                },
            }
        },
    }
}

impl ServerConfig {
    /// Decodes the pre-shared key, if one is configured: it must be exactly
    /// 64 hexadecimal digits (32 bytes), else `InvalidPskLength`.
    pub fn psk_bytes(&self) -> (r: Result<Option<[u8; 32]>, ConfigError>)
        ensures
            self.psk is None ==> r == Ok::<Option<[u8; 32]>, ConfigError>(None),
            self.psk matches Some(h) ==> {
                &&& is_psk_text(encode_utf8(h@)) ==> (r matches Ok(Some(k)) && hex_decoded(encode_utf8(h@))
                    == Some(k@))
                &&& !is_psk_text(encode_utf8(h@)) ==> r == Err::<Option<[u8; 32]>, ConfigError>(
                    ConfigError::InvalidPskLength,
                )
            },
    {
        match &self.psk {
            None => Ok(None),
            Some(hex) => match parse_psk_hex(hex.as_str()) {
                Ok(k) => Ok(Some(k)),
                Err(_) => Err(ConfigError::InvalidPskLength),
            },
        }
    }
}

} // verus!
