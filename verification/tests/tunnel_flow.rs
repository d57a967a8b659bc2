//! The client's tunnel: its states, the plan made from a finished
//! handshake, the WireGuard configuration, and the admin prompt around
//! `wg-quick`.

use cryptiq_personal_lib::commands::{self, RemediationRoute};
use cryptiq_personal_lib::pqc::{EdgeFinishResponse, EdgeHello, SessionSecrets};
use cryptiq_personal_lib::tunnel::{self, TunnelController, TunnelStatus};
use cryptiq_personal_lib::wireguard;

fn secrets() -> SessionSecrets {
    SessionSecrets {
        session_key: [0u8; 32],
        fingerprint: "0000000000000000".to_string(),
        kem_ciphertext_preview: "p".to_string(),
        kem_ciphertext_bytes: 1088,
        kem_encaps_key_bytes: 1184,
        duration_ns: 1,
    }
}

fn hello() -> EdgeHello {
    EdgeHello {
        handshake_id: "id".to_string(),
        kem_public_key_b64: "k".to_string(),
        server_x25519_pub_b64: "x".to_string(),
        server_wg_pub_b64: "SRVPUB".to_string(),
        wg_endpoint: "203.0.113.9:51820".to_string(),
    }
}

fn finish(ok: bool, fp: &str, dns: Option<&str>) -> EdgeFinishResponse {
    EdgeFinishResponse {
        ok,
        session_fingerprint: fp.to_string(),
        client_vpn_ip: "10.66.66.5".to_string(),
        server_vpn_ip: "10.66.66.1".to_string(),
        dns: dns.map(|d| d.to_string()),
    }
}

#[test]
fn new_controller_is_idle_towards_default_edge() {
    let t = TunnelController::new();
    let s = t.status();
    assert_eq!(s.state, "down");
    assert_eq!(s.edge_url, "http://64.181.224.148:8787");
    assert_eq!(s.message, "Tunnel idle");
    assert_eq!(s.transport, "handshake_only");
    assert_eq!(s.routing, "peer_only");
    assert!(s.handshake.is_none() && s.config_path.is_none() && s.psk_fingerprint.is_none());
    assert!(t.active_conf.is_none());
    let d = TunnelStatus::default();
    assert_eq!(d.edge_url, "http://64.181.224.148:8787");
    assert_eq!(d.state, "down");
}

#[test]
fn begin_connect_picks_the_edge() {
    let mut t = TunnelController::new();
    assert_eq!(t.begin_connect(None), Ok("http://64.181.224.148:8787".to_string()));
    let mut t2 = TunnelController::new();
    assert_eq!(t2.begin_connect(Some("   ".to_string())), Ok("http://64.181.224.148:8787".to_string()));
    let mut t3 = TunnelController::new();
    assert_eq!(t3.begin_connect(Some("http://edge:8787".to_string())), Ok("http://edge:8787".to_string()));
    assert_eq!(t3.status.state, "handshaking");
    assert_eq!(t3.status.edge_url, "http://edge:8787");
    assert_eq!(t3.status.message, "Negotiating hybrid handshake with http://edge:8787");
}

#[test]
fn connecting_twice_is_refused() {
    let mut t = TunnelController::new();
    t.status.state = "config_ready".to_string();
    assert_eq!(
        t.begin_connect(None),
        Err("tunnel already connected \u{2014} disconnect first".to_string())
    );
    assert_eq!(t.status.state, "config_ready");
    t.status.state = "up".to_string();
    assert!(t.begin_connect(None).is_err());
}

#[test]
fn edge_answer_is_checked() {
    let fp = "0000000000000000".to_string();
    assert_eq!(
        tunnel::check_edge_finish(&finish(false, &fp, None), &fp),
        Err("edge rejected handshake".to_string())
    );
    assert_eq!(
        tunnel::check_edge_finish(&finish(true, "ffffffffffffffff", None), &fp),
        Err("session fingerprint mismatch (client 0000000000000000 vs edge ffffffffffffffff)".to_string())
    );
    assert_eq!(tunnel::check_edge_finish(&finish(true, &fp, None), &fp), Ok(()));
}

#[test]
fn plan_for_full_tunnel_pins_dns_to_the_edge() {
    let plan = tunnel::plan_tunnel(
        "http://edge:8787",
        &hello(),
        &finish(true, "0000000000000000", None),
        &secrets(),
        "CLIENTPRIV",
        true,
        "/tmp/wg-cryptiq.conf",
    )
    .ok()
    .unwrap();
    let expected = "# CryptiQ Personal \u{2014} generated after ML-KEM-768 + X25519 handshake\n\
                    # The PresharedKey below is derived from the ML-KEM-768 shared secret,\n\
                    # making the WireGuard data plane quantum-resistant as well.\n\
                    # Do not share this file; it contains your WireGuard private key.\n\
                    [Interface]\nPrivateKey = CLIENTPRIV\nAddress = 10.66.66.5/32\nDNS = 10.66.66.1\n\
                    [Peer]\nPublicKey = SRVPUB\n\
                    PresharedKey = VKXjNmvgKnfZ0TIEvzKYaH9SMVETL01JfDonV6nn084=\n\
                    Endpoint = 203.0.113.9:51820\nAllowedIPs = 0.0.0.0/0, ::/0\nPersistentKeepalive = 25\n";
    assert_eq!(plan.conf, expected);
    let s = plan.status;
    assert_eq!(s.state, "config_ready");
    assert_eq!(s.routing, "full_tunnel");
    assert_eq!(s.transport, "handshake_only");
    assert_eq!(s.psk_fingerprint, Some("00d49f01".to_string()));
    assert_eq!(s.config_path, Some("/tmp/wg-cryptiq.conf".to_string()));
    assert_eq!(s.client_vpn_ip, Some("10.66.66.5".to_string()));
    assert_eq!(s.endpoint, Some("203.0.113.9:51820".to_string()));
    assert_eq!(
        s.message,
        "PQ handshake OK (0000000000000000). Config written to /tmp/wg-cryptiq.conf."
    );
    assert_eq!(s.handshake.unwrap().session_fingerprint, "0000000000000000");
}

#[test]
fn plan_for_peer_only_uses_advertised_dns_and_host_route() {
    let plan = tunnel::plan_tunnel(
        "e",
        &hello(),
        &finish(true, "0000000000000000", Some("9.9.9.9")),
        &secrets(),
        "P",
        false,
        "/c",
    )
    .ok()
    .unwrap();
    assert!(plan.conf.contains("DNS = 9.9.9.9\n"));
    assert!(plan.conf.contains("AllowedIPs = 10.66.66.1/32\n"));
    assert_eq!(plan.status.routing, "peer_only");
    let no_dns = tunnel::plan_tunnel("e", &hello(), &finish(true, "0000000000000000", None), &secrets(), "P", false, "/c")
        .ok()
        .unwrap();
    assert!(!no_dns.conf.contains("DNS = "));
}

#[test]
fn plan_refuses_mismatched_sessions() {
    assert_eq!(
        tunnel::plan_tunnel("e", &hello(), &finish(true, "1111111111111111", None), &secrets(), "P", true, "/c")
            .err(),
        Some("session fingerprint mismatch (client 0000000000000000 vs edge 1111111111111111)".to_string())
    );
    assert_eq!(
        tunnel::plan_tunnel("e", &hello(), &finish(false, "0000000000000000", None), &secrets(), "P", true, "/c")
            .err(),
        Some("edge rejected handshake".to_string())
    );
}

fn ready_status() -> TunnelStatus {
    let mut s = tunnel::idle_status("http://edge".to_string());
    s.state = "config_ready".to_string();
    s.config_path = Some("/c.conf".to_string());
    s
}

#[test]
fn wg_up_outcome_sets_state_and_message() {
    let (up, active) = tunnel::after_wg_up(ready_status(), "/c.conf".to_string(), Ok(()), "10.66.66.5", "abcd");
    assert_eq!(up.state, "up");
    assert_eq!(up.transport, "wireguard");
    assert_eq!(up.message, "Tunnel up \u{2014} traffic to 10.66.66.5 via ML-KEM-768 + WireGuard (abcd)");
    assert_eq!(active, Some("/c.conf".to_string()));
    let (down, none) =
        tunnel::after_wg_up(ready_status(), "/c.conf".to_string(), Err("no sudo".to_string()), "x", "y");
    assert_eq!(down.state, "config_ready");
    assert_eq!(
        down.message,
        "PQ handshake OK and config ready at /c.conf. WireGuard interface not brought up \
         automatically (no sudo). Import the config into the WireGuard app, or run: sudo wg-quick up '/c.conf'"
    );
    assert!(none.is_none());
}

#[test]
fn finish_connect_records_outcome() {
    let mut t = TunnelController::new();
    t.begin_connect(Some("http://edge".to_string())).unwrap();
    let err = t.finish_connect("http://edge".to_string(), Err("edge unreachable".to_string()));
    assert_eq!(err.err(), Some("edge unreachable".to_string()));
    assert_eq!(t.status.state, "down");
    assert_eq!(t.status.message, "edge unreachable");
    assert_eq!(t.status.edge_url, "http://edge");

    t.begin_connect(Some("http://edge".to_string())).unwrap();
    let ok = t.finish_connect("http://edge".to_string(), Ok((ready_status(), Some("/c.conf".to_string()))));
    assert_eq!(ok.ok().unwrap().state, "config_ready");
    assert_eq!(t.active_conf, Some("/c.conf".to_string()));
}

#[test]
fn disconnect_returns_to_idle_and_names_the_config() {
    let mut t = TunnelController::new();
    t.status = ready_status();
    t.active_conf = Some("/active.conf".to_string());
    assert_eq!(t.disconnect(), Some("/active.conf".to_string()));
    assert_eq!(t.status.state, "down");
    assert_eq!(t.status.edge_url, "http://edge");
    assert!(t.active_conf.is_none());

    let mut u = TunnelController::new();
    u.status = ready_status();
    assert_eq!(u.disconnect(), Some("/c.conf".to_string()));
    let mut idle = TunnelController::new();
    assert_eq!(idle.disconnect(), None);
}

#[test]
fn bring_up_needs_a_ready_config() {
    let t = TunnelController::new();
    assert_eq!(
        t.bring_up_target(),
        Err("no WireGuard config ready \u{2014} connect first".to_string())
    );
    let mut r = TunnelController::new();
    r.status = ready_status();
    assert_eq!(r.bring_up_target(), Ok(Some("/c.conf".to_string())));
    r.mark_up("/c.conf".to_string());
    assert_eq!(r.status.state, "up");
    assert_eq!(r.status.message, "Tunnel up \u{2014} traffic via ML-KEM-768 PSK + WireGuard ()");
    assert_eq!(r.bring_up_target(), Ok(None));
}

#[test]
fn applescript_escaping() {
    assert_eq!(tunnel::escape_for_applescript(r#"a"b\c"#), r#"a\"b\\c"#);
    assert_eq!(tunnel::escape_for_applescript("plain"), "plain");
    assert_eq!(tunnel::escape_for_applescript(""), "");
}

#[test]
fn admin_script_text() {
    let s = tunnel::admin_script("/opt/wg/bin", "/opt/wg/bin/bash", "/opt/wg/bin/wg-quick", "up", "/tmp/wg-cryptiq.conf");
    assert_eq!(
        s,
        "do shell script \"PATH=/opt/wg/bin:/usr/bin:/bin:/usr/sbin:/sbin '/opt/wg/bin/bash' \
         '/opt/wg/bin/wg-quick' up '/tmp/wg-cryptiq.conf'\" with administrator privileges with \
         prompt \"CryptiQ Personal wants to start the quantum-safe tunnel.\""
    );
    let down = tunnel::admin_script("p", "b", "w", "down", "c");
    assert!(down.ends_with("wants to stop the quantum-safe tunnel.\""));
    let quoted = tunnel::admin_script("p", "b", "w", "up", "my \"conf\"");
    assert!(quoted.contains("'my \\\"conf\\\"'"));
}

#[test]
fn escalation_failure_messages() {
    let declined = "Administrator authorization was declined \u{2014} tunnel config is ready but the interface was not brought up.";
    assert_eq!(tunnel::escalation_failure("execution error: User canceled. (-128)"), declined);
    assert_eq!(tunnel::escalation_failure("(-128)"), declined);
    assert_eq!(tunnel::escalation_failure("wg-quick: failed"), "wg-quick: failed");
}

#[test]
fn search_path_puts_tools_first() {
    assert_eq!(tunnel::search_path("/opt/wg/bin", "/usr/bin:/bin"), "/opt/wg/bin:/usr/bin:/bin");
}

#[test]
fn render_tunnel_conf_without_optional_lines() {
    let c = wireguard::render_tunnel_conf("PRIV", "10.0.0.2", "PUB", "h:1", "10.0.0.1/32", None, None);
    assert!(c.contains("Address = 10.0.0.2/32\n[Peer]\nPublicKey = PUB\nEndpoint = h:1\n"));
    assert!(!c.contains("DNS"));
    assert!(!c.contains("PresharedKey ="));
    assert!(c.ends_with("AllowedIPs = 10.0.0.1/32\nPersistentKeepalive = 25\n"));
}

#[test]
fn routes_and_dns_follow_the_mode() {
    assert_eq!(wireguard::allowed_ips(true, "10.66.66.1"), "0.0.0.0/0, ::/0");
    assert_eq!(wireguard::allowed_ips(false, "10.66.66.1"), "10.66.66.1/32");
    assert_eq!(wireguard::tunnel_dns(&Some("8.8.8.8".to_string()), false, "10.66.66.1"), Some("8.8.8.8".to_string()));
    assert_eq!(wireguard::tunnel_dns(&None, true, "10.66.66.1"), Some("10.66.66.1".to_string()));
    assert_eq!(wireguard::tunnel_dns(&None, false, "10.66.66.1"), None);
}

#[test]
fn remediation_routes() {
    assert_eq!(commands::remediation_route("ssh:id_rsa.pub"), RemediationRoute::SshMigration);
    assert_eq!(commands::remediation_route("ssh:known_hosts"), RemediationRoute::Manual);
    assert_eq!(commands::remediation_route("ssh:none"), RemediationRoute::Manual);
    assert_eq!(commands::remediation_route("net:wifi"), RemediationRoute::WifiPolicy);
    assert_eq!(commands::remediation_route("git:signing"), RemediationRoute::GitSigning);
    assert_eq!(commands::remediation_route("disk:filevault"), RemediationRoute::Manual);
    assert_eq!(commands::manual_remediation_error(), "This finding requires manual remediation");
}

#[test]
fn connect_options_merge_request_and_settings() {
    let o = commands::connect_options(None, None, Some("http://stored".to_string()), Some("true".to_string()), None);
    assert_eq!(o.edge_url, Some("http://stored".to_string()));
    assert!(o.full_tunnel);
    let o = commands::connect_options(Some("http://asked".to_string()), Some(false), Some("http://stored".to_string()), Some("1".to_string()), None);
    assert_eq!(o.edge_url, Some("http://asked".to_string()));
    assert!(!o.full_tunnel);
    let o = commands::connect_options(None, Some(false), None, None, Some("1".to_string()));
    assert!(o.full_tunnel);
    assert!(o.edge_url.is_none());
    let o = commands::connect_options(None, None, None, Some("yes".to_string()), Some("0".to_string()));
    assert!(!o.full_tunnel);
}

fn secrets_with(key: [u8; 32], fp: &str) -> SessionSecrets {
    SessionSecrets {
        session_key: key,
        fingerprint: fp.to_string(),
        kem_ciphertext_preview: "p".to_string(),
        kem_ciphertext_bytes: 1088,
        kem_encaps_key_bytes: 1184,
        duration_ns: 3,
    }
}

#[test]
fn simulated_outcome_verdicts() {
    let a = secrets_with([0u8; 32], "0000000000000000");
    let other_fp = secrets_with([0u8; 32], "1111111111111111");
    assert_eq!(
        tunnel::simulated_outcome(&a, &other_fp, "PRIV", "PUB").err(),
        Some("fingerprint mismatch in simulated exchange".to_string())
    );
    let other_key = secrets_with([1u8; 32], "0000000000000000");
    assert_eq!(
        tunnel::simulated_outcome(&a, &other_key, "PRIV", "PUB").err(),
        Some("PSK derivation mismatch between peers".to_string())
    );
    let (hs, conf) = tunnel::simulated_outcome(&a, &a, "PRIV", "PUB").ok().unwrap();
    assert_eq!(hs.session_fingerprint, "0000000000000000");
    assert_eq!(hs.duration_ns, 3);
    assert!(conf.contains("Address = 10.66.66.2/32\nDNS = 1.1.1.1\n"));
    assert!(conf.contains("PublicKey = PUB\nPresharedKey = VKXjNmvgKnfZ0TIEvzKYaH9SMVETL01JfDonV6nn084=\n"));
    assert!(conf.contains("AllowedIPs = 10.66.66.1/32\n"));
}

#[test]
fn settled_states_through_a_connection() {
    let mut t = TunnelController::new();
    t.begin_connect(None).unwrap();
    let plan = tunnel::plan_tunnel("e", &hello(), &finish(true, "0000000000000000", None), &secrets(), "P", false, "/c")
        .ok()
        .unwrap();
    assert_eq!(plan.status.state, "config_ready");
    assert!(plan.status.handshake.is_some() && plan.status.config_path.is_some());
    let outcome = tunnel::after_wg_up(plan.status, "/c".to_string(), Ok(()), "10.66.66.5", "0000000000000000");
    t.finish_connect("e".to_string(), Ok(outcome)).ok().unwrap();
    assert_eq!(t.status.state, "up");
    assert_eq!(t.status.transport, "wireguard");
    assert_eq!(t.disconnect(), Some("/c".to_string()));
    assert_eq!(t.status.state, "down");
}
