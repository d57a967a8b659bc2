//! Verified core of CryptiQ Personal: the hybrid ML-KEM-768 + X25519
//! handshake, WireGuard configuration rendering, the tunnel and edge state
//! machines, and the classification rules of the machine scanners.

pub mod commands;
pub mod edge;
pub mod pqc;
pub mod primitives;
pub mod scanner;
pub mod text;
pub mod tunnel;
pub mod wireguard;
