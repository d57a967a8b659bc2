# cryptiq_personal_lib

The core of CryptiQ Personal, a post-quantum hardening tool for a laptop, with
its behaviour stated in contracts and proved with Verus.

- `src/pqc.rs`: the hybrid ML-KEM-768 + X25519 handshake (client half, edge
  session, SHA-256 hybrid KDF, WireGuard PresharedKey derivation) and the law
  that a client and an edge session derive the same key.
- `src/edge.rs`: the edge's state: pending handshakes, the registry of
  WireGuard peers (addresses `10.66.66.2` to `10.66.66.250`), the answers to a
  finish request, the server WireGuard configuration, and the laws that a
  registry survives a restart and that the edge and a client agree.
- `src/tunnel.rs`: the client's tunnel as a state machine, the plan made from
  a finished handshake, and the `wg-quick` admin prompt.
- `src/wireguard.rs`: WireGuard keys and client configuration files.
- `src/scanner.rs`: the classification rules of the machine scanners.
- `src/commands.rs`: remediation routing and connection options.
- `src/text.rs`: text and number helpers the above are written with. Two
  of them are trusted wrappers of std: `push_char` (`String::push`) and
  `to_lowercase` (`str::to_lowercase`, with the name `lowercase`).
- `src/primitives.rs`: the trusted boundary to `sha2`, `ml-kem`,
  `x25519-dalek`, `base64`, `rand`, `uuid` and the clock. Every contract
  there, and those of the two std wrappers in `src/text.rs`, is assumed;
  the rest of `src/` is proved.
- `app/`: the programs around the library: the edge's HTTP service (axum),
  the client's HTTP calls and `wg-quick` runs, the machine scanners, and the
  SQLite store. They read and write; the library decides.
- `tests/`: tests on fixed values, including known SHA-256, base64 and
  RFC 7748 X25519 vectors.
