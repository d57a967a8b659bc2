//! Integration tests for the CryptiQ Personal backend core: the hybrid
//! post-quantum handshake and the WireGuard configuration it produces.

use cryptiq_personal_lib::pqc;
use cryptiq_personal_lib::tunnel;
use cryptiq_personal_lib::wireguard;

// ---------- crypto ----------

#[test]
fn hybrid_handshake_succeeds_and_reports_real_parameters() {
    let hs = pqc::hybrid_handshake().expect("handshake must succeed");
    assert_eq!(hs.kem, "ML-KEM-768");
    assert_eq!(hs.classical, "X25519");
    // SHA-256-derived fingerprint: 8 bytes hex-encoded
    assert_eq!(hs.session_fingerprint.len(), 16);
    assert!(hs.session_fingerprint.chars().all(|c| c.is_ascii_hexdigit()));
    // FIPS 203: ML-KEM-768 ciphertext is exactly 1088 bytes
    assert_eq!(hs.kem_ciphertext_bytes, 1088);
    assert!(hs.duration_ns > 0);
}

#[test]
fn handshake_produces_unique_session_keys() {
    let a = pqc::hybrid_handshake().unwrap();
    let b = pqc::hybrid_handshake().unwrap();
    assert_ne!(
        a.session_fingerprint, b.session_fingerprint,
        "two handshakes must never derive the same session key"
    );
}

#[test]
fn handshake_exposes_full_fips203_parameters() {
    let hs = pqc::hybrid_handshake().unwrap();
    // FIPS 203 ML-KEM-768: encapsulation key 1184 B, ciphertext 1088 B, shared secret 32 B
    assert_eq!(hs.kem_encaps_key_bytes, 1184);
    assert_eq!(hs.kem_ciphertext_bytes, 1088);
    assert_eq!(hs.kem_shared_secret_bytes, 32);
    assert_eq!(hs.classical_shared_secret_bytes, 32);
    assert_eq!(hs.kdf_label, "cryptiq-personal-hybrid-v1");
}

#[test]
fn networked_handshake_client_and_server_agree() {
    let (hs, conf) = tunnel::simulate_peer_exchange().unwrap();
    assert_eq!(hs.kem, "ML-KEM-768");
    assert_eq!(hs.kem_ciphertext_bytes, 1088);
    assert!(conf.contains("[Interface]"));
    assert!(conf.contains("[Peer]"));
    assert!(conf.contains("PersistentKeepalive"));
}

#[test]
fn wg_conf_render_includes_dns_when_provided() {
    let conf = wireguard::render_wg_conf(
        "priv",
        "10.66.66.2",
        "pub",
        "127.0.0.1:51820",
        "10.66.66.1",
        Some("1.1.1.1"),
    );
    assert!(conf.contains("DNS = 1.1.1.1"));
    assert!(conf.contains("AllowedIPs = 10.66.66.1/32"));
}
