//! The handshake's derivations on fixed inputs (values computed
//! independently with SHA-256 and base64, and RFC 7748's X25519 vectors),
//! and every error the client and the edge session answer with.

use base64::engine::general_purpose::STANDARD as B64;
use base64::Engine;
use cryptiq_personal_lib::pqc::{self, EdgeHello};
use cryptiq_personal_lib::wireguard;

const ALICE_PRIVATE: [u8; 32] = [
    0x77, 0x07, 0x6d, 0x0a, 0x73, 0x18, 0xa5, 0x7d, 0x3c, 0x16, 0xc1, 0x72, 0x51, 0xb2, 0x66, 0x45,
    0xdf, 0x4c, 0x2f, 0x87, 0xeb, 0xc0, 0x99, 0x2a, 0xb1, 0x77, 0xfb, 0xa5, 0x1d, 0xb9, 0x2c, 0x2a,
];
const ALICE_PUBLIC_B64: &str = "hSDwCYkwp1R0i33ctD73Wg2/Og0mOBr066SpjqqbTmo=";
const BOB_PUBLIC_B64: &str = "3p7bfXt9wbTTW2HC7OQ1Nz+DQ8hbeGdNrfx+FG+IK08=";

fn hello_with(kem_b64: &str, x_b64: &str) -> EdgeHello {
    EdgeHello {
        handshake_id: "hs-1".to_string(),
        kem_public_key_b64: kem_b64.to_string(),
        server_x25519_pub_b64: x_b64.to_string(),
        server_wg_pub_b64: "wg".to_string(),
        wg_endpoint: "e:51820".to_string(),
    }
}

#[test]
fn fingerprint_is_hex_of_first_eight_bytes() {
    assert_eq!(pqc::fingerprint(&[0u8; 32]), "0000000000000000");
    let mut k = [0xffu8; 32];
    k[..8].copy_from_slice(&[0x01, 0x23, 0x45, 0x67, 0x89, 0xab, 0xcd, 0xef]);
    assert_eq!(pqc::fingerprint(&k), "0123456789abcdef");
}

#[test]
fn wg_psk_known_values() {
    assert_eq!(pqc::derive_wg_psk(&[0u8; 32]), "VKXjNmvgKnfZ0TIEvzKYaH9SMVETL01JfDonV6nn084=");
    let mut k = [0u8; 32];
    for (i, b) in k.iter_mut().enumerate() {
        *b = i as u8;
    }
    assert_eq!(pqc::derive_wg_psk(&k), "wwNsRSFHI6Pm2HbL99EsNTSUmtT7s60j9uRLijFuX8o=");
}

#[test]
fn psk_fingerprint_known_values() {
    assert_eq!(pqc::psk_fingerprint("abc"), "ba7816bf");
    assert_eq!(
        pqc::psk_fingerprint("VKXjNmvgKnfZ0TIEvzKYaH9SMVETL01JfDonV6nn084="),
        "00d49f01"
    );
}

#[test]
fn stored_keypair_follows_rfc7748() {
    let kp = wireguard::stored_wg_keypair("  dwdtCnMYpX08FsFyUbJmRd9ML4frwJkqsXf7pR25LCo=\n")
        .expect("32-byte key must load");
    assert_eq!(kp.private_b64, "dwdtCnMYpX08FsFyUbJmRd9ML4frwJkqsXf7pR25LCo=");
    assert_eq!(kp.public_b64, ALICE_PUBLIC_B64);
}

#[test]
fn stored_keypair_rejects_corrupt_files() {
    assert!(wireguard::stored_wg_keypair("AAAAAAAAAAAAAAAAAAAAAAAAAAAAAAAAAAAAAAAAAA==").is_none());
    assert!(wireguard::stored_wg_keypair("not base64 at all!").is_none());
    assert!(wireguard::stored_wg_keypair("").is_none());
}

#[test]
fn generated_keypair_reloads_to_the_same_public_key() {
    let kp = wireguard::generate_wg_keypair();
    assert_eq!(B64.decode(&kp.private_b64).unwrap().len(), 32);
    assert_eq!(B64.decode(&kp.public_b64).unwrap().len(), 32);
    let back = wireguard::stored_wg_keypair(&kp.private_b64).unwrap();
    assert_eq!(back.private_b64, kp.private_b64);
    assert_eq!(back.public_b64, kp.public_b64);
    assert_ne!(wireguard::generate_wg_keypair().private_b64, kp.private_b64);
}

#[test]
fn local_outcome_reports_the_hybrid_session() {
    let ct = [7u8; 40];
    let r = pqc::local_handshake_outcome(&ct, &[1u8; 32], &[1u8; 32], &[2u8; 32], &[2u8; 32], 1184, 5)
        .unwrap();
    assert_eq!(r.session_fingerprint, "1b5279cf94044f5b");
    assert_eq!(r.kem_ciphertext_preview, "BwcHBwcHBwcHBwcHBwcHBwcHBwcHBwcHBwcHBwcHBwcHBwcH");
    assert_eq!(r.kem_ciphertext_bytes, 40);
    assert_eq!(r.kem_encaps_key_bytes, 1184);
    assert_eq!(r.kdf, "SHA-256 hybrid");
    assert_eq!(r.duration_ns, 5);
    let short = pqc::local_handshake_outcome(&[7u8; 3], &[1u8; 32], &[1u8; 32], &[2u8; 32], &[2u8; 32], 1, 0)
        .unwrap();
    assert_eq!(short.kem_ciphertext_preview, "BwcH");
}

#[test]
fn local_outcome_detects_mismatches() {
    let ct = [0u8; 4];
    assert_eq!(
        pqc::local_handshake_outcome(&ct, &[1u8; 32], &[2u8; 32], &[3u8; 32], &[3u8; 32], 0, 0).err(),
        Some("ML-KEM shared secret mismatch".to_string())
    );
    assert_eq!(
        pqc::local_handshake_outcome(&ct, &[1u8; 32], &[1u8; 32], &[3u8; 32], &[4u8; 32], 0, 0).err(),
        Some("X25519 shared secret mismatch".to_string())
    );
}

#[test]
fn client_half_matches_rfc7748_agreement() {
    let hello = hello_with("unused", BOB_PUBLIC_B64);
    let ct = vec![9u8; 1088];
    let (s, req) =
        pqc::complete_client_finish(&hello, "my-wg-pub", &ct, &[5u8; 32], &ALICE_PRIVATE, 42).unwrap();
    assert_eq!(s.fingerprint, "82373f0dcff2f3b3");
    assert_eq!(
        s.session_key,
        [
            130, 55, 63, 13, 207, 242, 243, 179, 26, 183, 165, 195, 177, 47, 225, 15, 208, 143, 55,
            199, 188, 131, 231, 208, 26, 59, 137, 125, 3, 128, 16, 79
        ]
    );
    assert_eq!(s.kem_ciphertext_preview, "CQkJCQkJCQkJCQkJCQkJCQkJCQkJCQkJCQkJCQkJCQkJCQkJ");
    assert_eq!(s.kem_ciphertext_bytes, 1088);
    assert_eq!(s.kem_encaps_key_bytes, 1184);
    assert_eq!(s.duration_ns, 42);
    assert_eq!(req.handshake_id, "hs-1");
    assert_eq!(req.client_x25519_pub_b64, ALICE_PUBLIC_B64);
    assert_eq!(req.client_wg_pub_b64, "my-wg-pub");
    assert_eq!(B64.decode(&req.kem_ciphertext_b64).unwrap(), ct);
}

#[test]
fn client_half_rejects_bad_server_keys() {
    let ct = vec![0u8; 1088];
    let bad = pqc::complete_client_finish(&hello_with("x", "!!"), "w", &ct, &[0u8; 32], &ALICE_PRIVATE, 0);
    assert!(bad.err().unwrap().starts_with("bad server x25519: "));
    let short = pqc::complete_client_finish(&hello_with("x", "AAAA"), "w", &ct, &[0u8; 32], &ALICE_PRIVATE, 0);
    assert_eq!(short.err(), Some("server X25519 public key must be 32 bytes".to_string()));
}

#[test]
fn client_finish_rejects_bad_kem_keys() {
    let bad = pqc::client_finish(&hello_with("!!", BOB_PUBLIC_B64), "w");
    assert!(bad.err().unwrap().starts_with("bad kem public key: "));
    let short = pqc::client_finish(&hello_with("AAAAAAAAAAAAAA==", BOB_PUBLIC_B64), "w");
    assert_eq!(short.err(), Some("invalid ML-KEM encapsulation key length".to_string()));
}

#[test]
fn client_finish_checks_server_x25519_after_kem_key() {
    let session = pqc::server_start("id".to_string(), "wg".to_string(), "e".to_string());
    let mut hello = session.hello();
    hello.server_x25519_pub_b64 = "AAAA".to_string();
    assert_eq!(
        pqc::client_finish(&hello, "w").err(),
        Some("server X25519 public key must be 32 bytes".to_string())
    );
}

#[test]
fn server_session_and_client_agree() {
    let session = pqc::server_start("hs-9".to_string(), "srv-wg".to_string(), "1.2.3.4:51820".to_string());
    assert_eq!(session.handshake_id(), "hs-9");
    assert_eq!(session.wg_pub_b64(), "srv-wg");
    assert_eq!(session.wg_endpoint(), "1.2.3.4:51820");
    let hello = session.hello();
    assert_eq!(B64.decode(&hello.kem_public_key_b64).unwrap().len(), 1184);
    assert_eq!(B64.decode(&hello.server_x25519_pub_b64).unwrap().len(), 32);
    let (client, req) = pqc::client_finish(&hello, "cli-wg").unwrap();
    let server = session.finish(&req).unwrap();
    assert_eq!(client.session_key, server.session_key);
    assert_eq!(client.fingerprint, server.fingerprint);
    assert_eq!(server.kem_ciphertext_bytes, 1088);
    assert_eq!(server.kem_encaps_key_bytes, 1184);
    assert_eq!(
        pqc::derive_wg_psk(&client.session_key),
        pqc::derive_wg_psk(&server.session_key)
    );
}

#[test]
fn server_session_rejects_malformed_requests() {
    let session = pqc::server_start("hs".to_string(), "w".to_string(), "e".to_string());
    let (_, good) = pqc::client_finish(&session.hello(), "c").unwrap();
    let with = |ct: &str, cx: &str| pqc::ClientFinishRequest {
        handshake_id: good.handshake_id.clone(),
        kem_ciphertext_b64: ct.to_string(),
        client_x25519_pub_b64: cx.to_string(),
        client_wg_pub_b64: good.client_wg_pub_b64.clone(),
    };
    let e = session.finish(&with("***", &good.client_x25519_pub_b64)).err().unwrap();
    assert!(e.starts_with("bad ciphertext: "));
    assert_eq!(
        session.finish(&with("AAAA", &good.client_x25519_pub_b64)).err(),
        Some("invalid ML-KEM ciphertext length".to_string())
    );
    let e = session.finish(&with(&good.kem_ciphertext_b64, "@@")).err().unwrap();
    assert!(e.starts_with("bad client x25519: "));
    assert_eq!(
        session.finish(&with(&good.kem_ciphertext_b64, "AAAA")).err(),
        Some("client X25519 public key must be 32 bytes".to_string())
    );
    assert!(session.finish(&good).is_ok());
}

#[test]
fn handshake_report_carries_session_secrets() {
    let s = pqc::SessionSecrets {
        session_key: [0u8; 32],
        fingerprint: "0000000000000000".to_string(),
        kem_ciphertext_preview: "prev".to_string(),
        kem_ciphertext_bytes: 1088,
        kem_encaps_key_bytes: 1184,
        duration_ns: 77,
    };
    let r = pqc::to_handshake_result(&s);
    assert_eq!(r.kem, "ML-KEM-768");
    assert_eq!(r.classical, "X25519");
    assert_eq!(r.session_fingerprint, "0000000000000000");
    assert_eq!(r.kem_ciphertext_preview, "prev");
    assert_eq!(r.kem_shared_secret_bytes, 32);
    assert_eq!(r.classical_shared_secret_bytes, 32);
    assert_eq!(r.kdf_label, "cryptiq-personal-hybrid-v1");
    assert_eq!(r.duration_ns, 77);
}

#[test]
fn psk_and_its_fingerprint_have_fixed_shapes() {
    let psk = pqc::derive_wg_psk(&[7u8; 32]);
    assert_eq!(psk.len(), 44);
    assert_eq!(B64.decode(&psk).unwrap().len(), 32);
    let fp = pqc::psk_fingerprint(&psk);
    assert_eq!(fp.len(), 8);
    assert!(fp.chars().all(|c| c.is_ascii_digit() || ('a'..='f').contains(&c)));
}
