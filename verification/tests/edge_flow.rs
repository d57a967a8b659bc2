//! The edge's registry of peers and its side of the networked handshake,
//! driven by a real client.

use cryptiq_personal_lib::edge::{EdgeState, PeerEntry, PeerRegistry};
use cryptiq_personal_lib::pqc;

fn entry(ip: &str, psk: &str) -> PeerEntry {
    PeerEntry { vpn_ip: ip.to_string(), psk_b64: psk.to_string() }
}

fn lookup(r: &PeerRegistry, key: &str) -> Option<(String, String)> {
    for i in 0..r.len() {
        let (k, e) = r.entry(i);
        if k == key {
            return Some((e.vpn_ip.clone(), e.psk_b64.clone()));
        }
    }
    None
}

#[test]
fn registry_hands_out_consecutive_addresses() {
    let mut r = PeerRegistry::new();
    assert_eq!(r.next_host(), 1);
    assert_eq!(r.register(&"alice".to_string(), "psk-a".to_string()), Ok("10.66.66.2".to_string()));
    assert_eq!(r.register(&"bob".to_string(), "psk-b".to_string()), Ok("10.66.66.3".to_string()));
    assert_eq!(r.len(), 2);
    assert_eq!(r.next_host(), 3);
    assert_eq!(lookup(&r, "bob"), Some(("10.66.66.3".to_string(), "psk-b".to_string())));
}

#[test]
fn re_registering_keeps_the_address_and_takes_the_new_psk() {
    let mut r = PeerRegistry::new();
    r.register(&"alice".to_string(), "old".to_string()).unwrap();
    r.register(&"bob".to_string(), "b".to_string()).unwrap();
    assert_eq!(r.register(&"alice".to_string(), "new".to_string()), Ok("10.66.66.2".to_string()));
    assert_eq!(r.len(), 2);
    assert_eq!(r.next_host(), 3);
    assert_eq!(lookup(&r, "alice"), Some(("10.66.66.2".to_string(), "new".to_string())));
    assert_eq!(lookup(&r, "bob"), Some(("10.66.66.3".to_string(), "b".to_string())));
}

#[test]
fn pool_is_exhausted_after_host_250() {
    let mut r = PeerRegistry::from_persisted(249, vec![("known".to_string(), entry("10.66.66.7", "k"))]);
    assert_eq!(r.register(&"last".to_string(), "p".to_string()), Ok("10.66.66.250".to_string()));
    assert_eq!(
        r.register(&"late".to_string(), "p".to_string()),
        Err("peer pool exhausted".to_string())
    );
    assert_eq!(r.len(), 2);
    assert_eq!(r.next_host(), 250);
    // A key already registered is still served.
    assert_eq!(r.register(&"known".to_string(), "k2".to_string()), Ok("10.66.66.7".to_string()));
}

#[test]
fn persisted_counter_is_never_below_one() {
    let mut r = PeerRegistry::from_persisted(0, vec![]);
    assert_eq!(r.next_host(), 1);
    assert_eq!(r.register(&"a".to_string(), "p".to_string()), Ok("10.66.66.2".to_string()));
    assert_eq!(PeerRegistry::from_persisted(7, vec![]).next_host(), 7);
}

#[test]
fn repeated_persisted_key_keeps_its_last_entry() {
    let r = PeerRegistry::from_persisted(
        5,
        vec![
            ("a".to_string(), entry("10.66.66.2", "first")),
            ("b".to_string(), entry("10.66.66.3", "b")),
            ("a".to_string(), entry("10.66.66.4", "second")),
        ],
    );
    assert_eq!(r.len(), 2);
    assert_eq!(lookup(&r, "a"), Some(("10.66.66.4".to_string(), "second".to_string())));
}

#[test]
fn restart_keeps_registry() {
    let mut r = PeerRegistry::new();
    r.register(&"alice".to_string(), "pa".to_string()).unwrap();
    r.register(&"bob".to_string(), "pb".to_string()).unwrap();
    r.register(&"alice".to_string(), "pa2".to_string()).unwrap();
    let (host, saved) = r.snapshot();
    assert_eq!(host, 3);
    assert_eq!(saved.len(), 2);
    let mut back = PeerRegistry::from_persisted(host, saved);
    assert_eq!(back.len(), 2);
    assert_eq!(back.next_host(), 3);
    assert_eq!(lookup(&back, "alice"), Some(("10.66.66.2".to_string(), "pa2".to_string())));
    assert_eq!(lookup(&back, "bob"), Some(("10.66.66.3".to_string(), "pb".to_string())));
    assert_eq!(back.register(&"carol".to_string(), "pc".to_string()), Ok("10.66.66.4".to_string()));
}

fn edge_with(registry: PeerRegistry) -> EdgeState {
    EdgeState::new(
        "c2VydmVyLXByaXZhdGU=".to_string(),
        "c2VydmVyLXB1YmxpYw==".to_string(),
        "203.0.113.9:51820".to_string(),
        "1.1.1.1".to_string(),
        None,
        registry,
    )
}

#[test]
fn edge_and_client_agree_and_client_is_registered() {
    let mut edge = edge_with(PeerRegistry::new());
    let hello = edge.start_handshake();
    assert_eq!(hello.server_wg_pub_b64, "c2VydmVyLXB1YmxpYw==");
    assert_eq!(hello.wg_endpoint, "203.0.113.9:51820");
    let (secrets, req) = pqc::client_finish(&hello, "client-wg-pub").unwrap();
    let res = edge.finish_handshake(&req).expect("edge must accept");
    assert!(res.ok);
    assert_eq!(res.session_fingerprint, secrets.fingerprint);
    assert_eq!(res.client_vpn_ip, "10.66.66.2");
    assert_eq!(res.server_vpn_ip, "10.66.66.1");
    assert_eq!(res.dns, Some("1.1.1.1".to_string()));
    let psk = pqc::derive_wg_psk(&secrets.session_key);
    assert_eq!(lookup(edge.registry(), "client-wg-pub"), Some(("10.66.66.2".to_string(), psk)));
    assert_eq!(edge.registry().next_host(), 2);
    assert_eq!(edge.registry().len(), 1);
}

#[test]
fn finished_handshake_cannot_be_replayed() {
    let mut edge = edge_with(PeerRegistry::new());
    let hello = edge.start_handshake();
    let (_, req) = pqc::client_finish(&hello, "k").unwrap();
    edge.finish_handshake(&req).unwrap();
    assert_eq!(edge.finish_handshake(&req).err(), Some((400, "unknown handshake_id".to_string())));
}

#[test]
fn unknown_handshake_id_is_refused() {
    let mut edge = edge_with(PeerRegistry::new());
    let hello = edge.start_handshake();
    let (_, mut req) = pqc::client_finish(&hello, "k").unwrap();
    req.handshake_id = "not-a-pending-id".to_string();
    assert_eq!(edge.finish_handshake(&req).err(), Some((400, "unknown handshake_id".to_string())));
    assert_eq!(edge.registry().len(), 0);
}

#[test]
fn malformed_requests_are_refused_and_consume_the_session() {
    let mut edge = edge_with(PeerRegistry::new());

    let hello = edge.start_handshake();
    let (_, mut req) = pqc::client_finish(&hello, "k").unwrap();
    req.kem_ciphertext_b64 = "***".to_string();
    let (code, msg) = edge.finish_handshake(&req).err().unwrap();
    assert_eq!(code, 400);
    assert!(msg.starts_with("bad ciphertext: "));
    assert_eq!(edge.finish_handshake(&req).err(), Some((400, "unknown handshake_id".to_string())));

    let hello = edge.start_handshake();
    let (_, mut req) = pqc::client_finish(&hello, "k").unwrap();
    req.kem_ciphertext_b64 = "AAAA".to_string();
    assert_eq!(edge.finish_handshake(&req).err(), Some((400, "invalid ciphertext length".to_string())));

    let hello = edge.start_handshake();
    let (_, mut req) = pqc::client_finish(&hello, "k").unwrap();
    req.client_x25519_pub_b64 = "%%".to_string();
    let (code, msg) = edge.finish_handshake(&req).err().unwrap();
    assert_eq!(code, 400);
    assert!(msg.starts_with("bad client x25519: "));

    let hello = edge.start_handshake();
    let (_, mut req) = pqc::client_finish(&hello, "k").unwrap();
    req.client_x25519_pub_b64 = "AAAA".to_string();
    assert_eq!(
        edge.finish_handshake(&req).err(),
        Some((400, "client x25519 must be 32 bytes".to_string()))
    );
    assert_eq!(edge.registry().len(), 0);
}

#[test]
fn exhausted_pool_answers_503() {
    let mut edge = edge_with(PeerRegistry::from_persisted(250, vec![]));
    let hello = edge.start_handshake();
    let (_, req) = pqc::client_finish(&hello, "newcomer").unwrap();
    assert_eq!(edge.finish_handshake(&req).err(), Some((503, "peer pool exhausted".to_string())));
}

#[test]
fn second_handshake_keeps_address_and_rotates_psk() {
    let mut edge = edge_with(PeerRegistry::new());
    let h1 = edge.start_handshake();
    let (s1, r1) = pqc::client_finish(&h1, "laptop").unwrap();
    edge.finish_handshake(&r1).unwrap();
    let h2 = edge.start_handshake();
    assert_ne!(h1.handshake_id, h2.handshake_id);
    let (s2, r2) = pqc::client_finish(&h2, "laptop").unwrap();
    let res = edge.finish_handshake(&r2).unwrap();
    assert_eq!(res.client_vpn_ip, "10.66.66.2");
    assert_ne!(s1.fingerprint, s2.fingerprint);
    let psk2 = pqc::derive_wg_psk(&s2.session_key);
    assert_eq!(lookup(edge.registry(), "laptop"), Some(("10.66.66.2".to_string(), psk2)));
    assert_eq!(edge.registry().len(), 1);
    assert_eq!(edge.registry().next_host(), 2);
}

#[test]
fn other_peers_are_untouched_by_a_handshake() {
    let registry = PeerRegistry::from_persisted(3, vec![("old".to_string(), entry("10.66.66.3", "keep"))]);
    let mut edge = edge_with(registry);
    let hello = edge.start_handshake();
    let (_, req) = pqc::client_finish(&hello, "new").unwrap();
    assert_eq!(edge.finish_handshake(&req).unwrap().client_vpn_ip, "10.66.66.4");
    assert_eq!(lookup(edge.registry(), "old"), Some(("10.66.66.3".to_string(), "keep".to_string())));
    assert_eq!(edge.registry().next_host(), 4);
    assert_eq!(edge.registry().len(), 2);
}

#[test]
fn interleaved_handshakes_finish_independently() {
    let mut edge = edge_with(PeerRegistry::new());
    let ha = edge.start_handshake();
    let hb = edge.start_handshake();
    let (sb, rb) = pqc::client_finish(&hb, "b").unwrap();
    let (sa, ra) = pqc::client_finish(&ha, "a").unwrap();
    assert_eq!(edge.finish_handshake(&rb).unwrap().session_fingerprint, sb.fingerprint);
    assert_eq!(edge.finish_handshake(&ra).unwrap().session_fingerprint, sa.fingerprint);
}

#[test]
fn server_conf_lists_every_peer() {
    let registry = PeerRegistry::from_persisted(
        3,
        vec![
            ("pubA".to_string(), entry("10.66.66.2", "pskA")),
            ("pubB".to_string(), entry("10.66.66.3", "pskB")),
        ],
    );
    let edge = edge_with(registry);
    let text = edge.server_conf_text("/srv/wg-cryptiq.conf");
    let expected = "# CryptiQ edge WireGuard config \u{2014} regenerated on each peer join\n\
                    # Bring up with: sudo wg-quick up /srv/wg-cryptiq.conf\n\
                    [Interface]\n\
                    PrivateKey = c2VydmVyLXByaXZhdGU=\n\
                    Address = 10.66.66.1/24\n\
                    ListenPort = 51820\n\
                    \n\
                    [Peer]\nPublicKey = pubA\nPresharedKey = pskA\nAllowedIPs = 10.66.66.2/32\n\n\
                    [Peer]\nPublicKey = pubB\nPresharedKey = pskB\nAllowedIPs = 10.66.66.3/32\n\n";
    assert_eq!(text, expected);
}

#[test]
fn server_conf_with_nat_inserts_forward_rules() {
    let edge = EdgeState::new(
        "priv".to_string(),
        "pub".to_string(),
        "e:51820".to_string(),
        "9.9.9.9".to_string(),
        Some("eth0".to_string()),
        PeerRegistry::new(),
    );
    let text = edge.server_conf_text("/c");
    assert!(text.contains(
        "PostUp = iptables -I FORWARD 1 -i %i -j ACCEPT; iptables -I FORWARD 1 -o %i -j ACCEPT; \
         iptables -t nat -A POSTROUTING -o eth0 -j MASQUERADE\n"
    ));
    assert!(text.contains(
        "PostDown = iptables -D FORWARD -i %i -j ACCEPT; iptables -D FORWARD -o %i -j ACCEPT; \
         iptables -t nat -D POSTROUTING -o eth0 -j MASQUERADE\n"
    ));
    assert!(text.ends_with("MASQUERADE\n\n"));
}
