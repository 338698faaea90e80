# tundra

A DPI-resistant proxy: a SOCKS5 client and a desktop proxy talk to a tunnel
server over TLS, authenticate with a pre-shared key and a post-quantum key
encapsulation (Kyber768, with X25519 for the hybrid handshake), and carry
many streams in encrypted, multiplexed frames whose sizes and timing are
shaped after real browsing traffic.

## Layout

- `src/` — the library, verified with Verus:
  - `frame` — the wire format of multiplexed frames;
  - `crypto`, `record` — ChaCha20-Poly1305 sealing, BLAKE3 key derivation,
    role-separated nonces, and encrypted records;
  - `kem` — Kyber768 and the hybrid Kyber768 + X25519 encapsulation;
  - `client` — SOCKS5 exchanges, the client's and the desktop proxy's
    handshakes, session rules and saved profiles;
  - `server` — first-read classification, authentication, frame dispatch,
    the upstream access rules, admission control and configuration;
  - `fme` — the flow-morphing engine: site models, the built-in mimicry
    models and profiles, chaff, packet shaping and the measurements of a
    probe;
  - `protocol` — properties that tie both ends together;
  - `text` — the small text helpers that the protocol needs.
- `tests/` — tests of the library.
- `app/` — the programs (`server`, `client`, `desktop`, `fme`, `collect`):
  network and file I/O, the TLS set-up, and the floating-point samplers of
  packet sizes and delays, which hand the library plain sizes and delays.
