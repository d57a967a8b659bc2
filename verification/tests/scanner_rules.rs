//! Classification rules of the scanners, on the texts the machine would hand
//! them: key files, `ssh-keygen -l` output, and system command output.

use cryptiq_personal_lib::scanner;

const RSA_PUB: &str = "ssh-rsa AAAAB3NzaC1yc2EAAAADAQABAAABAQC7 user@host\n";
const ECDSA_PUB: &str =
    "ecdsa-sha2-nistp256 AAAAE2VjZHNhLXNoYTItbmlzdHAyNTYAAAAIbmlzdHAyNTY user@host\n";
const ED25519_PUB: &str = "ssh-ed25519 AAAAC3NzaC1lZDI1NTE5AAAAIJ user@host\n";

/// The finding the scanner gives for one key file of the given algorithm,
/// as a key directory holding just that file yields it.
fn classify_generated_key(algo: &str, content: &str, keygen_output: &str) -> scanner::Finding {
    let name = format!("test_{algo}.pub");
    let keys = vec![scanner::KeyFile {
        name: name.clone(),
        content: content.to_string(),
        keygen_output: Some(keygen_output.to_string()),
    }];
    let findings = scanner::ssh_key_findings("/tmp/keys", &keys);
    findings
        .into_iter()
        .find(|f| f.id == format!("ssh:{name}"))
        .expect("scanner must produce a finding for the generated key")
}

#[test]
fn rsa_2048_is_flagged_as_quantum_weak_and_auto_fixable() {
    let f = classify_generated_key("rsa", RSA_PUB, "2048 SHA256:q1w2e3r4t5 user@host (RSA)\n");
    assert_eq!(f.severity, "warn");
    assert_eq!(f.current_crypto, "RSA-2048");
    assert_eq!(f.target_crypto, "Ed25519 + ML-DSA-65");
    assert_eq!(f.remediation, "auto");
}

#[test]
fn ecdsa_is_flagged_as_quantum_weak() {
    let f = classify_generated_key("ecdsa", ECDSA_PUB, "256 SHA256:a1b2c3 user@host (ECDSA)\n");
    assert_eq!(f.severity, "warn");
    assert_eq!(f.remediation, "auto");
}

#[test]
fn ed25519_is_reported_safe() {
    let f = classify_generated_key("ed25519", ED25519_PUB, "256 SHA256:zz user@host (ED25519)\n");
    assert_eq!(f.severity, "ok");
    assert_eq!(f.current_crypto, "Ed25519");
    assert_eq!(f.remediation, "none");
}

#[test]
fn empty_ssh_dir_reports_ok_not_error() {
    let findings = scanner::ssh_key_findings("/tmp/empty", &[]);
    assert_eq!(findings.len(), 1);
    assert_eq!(findings[0].id, "ssh:none");
    assert_eq!(findings[0].severity, "ok");
}

#[test]
fn no_keys_finding_names_the_directory() {
    let f = scanner::no_ssh_keys_finding("/tmp/empty");
    assert_eq!(f.detail, "/tmp/empty contains no public keys");
    assert_eq!(f.name, "No SSH keys found");
    assert_eq!(f.remediation, "none");
}

#[test]
fn key_directory_keeps_order_and_skips_blank_files() {
    let key = |name: &str, content: &str| scanner::KeyFile {
        name: name.to_string(),
        content: content.to_string(),
        keygen_output: None,
    };
    let keys = vec![key("a.pub", ED25519_PUB), key("blank.pub", "\n"), key("b.pub", RSA_PUB)];
    let findings = scanner::ssh_key_findings("/d", &keys);
    assert_eq!(findings.len(), 2);
    assert_eq!(findings[0].id, "ssh:a.pub");
    assert_eq!(findings[1].id, "ssh:b.pub");
    let only_blank = scanner::ssh_key_findings("/d", &[key("blank.pub", "")]);
    assert_eq!(only_blank.len(), 1);
    assert_eq!(only_blank[0].id, "ssh:none");
}

#[test]
fn short_rsa_key_is_critical_with_exact_detail() {
    let f = scanner::classify_ssh_key("old.pub", RSA_PUB, Some("1024 SHA256:x c (RSA)")).unwrap();
    assert_eq!(f.name, "SSH key old.pub");
    assert_eq!(f.category, "SSH");
    assert_eq!(f.severity, "critical");
    assert_eq!(f.current_crypto, "RSA-1024");
    assert_eq!(f.detail, "RSA is quantum-breakable via Shor's algorithm (1024-bit key)");
}

#[test]
fn rsa_key_without_keygen_output_is_taken_as_2048_bits() {
    let f = scanner::classify_ssh_key("k.pub", RSA_PUB, None).unwrap();
    assert_eq!(f.severity, "warn");
    assert_eq!(f.current_crypto, "RSA-2048");
    let g = scanner::classify_ssh_key("k.pub", RSA_PUB, Some("garbage output")).unwrap();
    assert_eq!(g.current_crypto, "RSA-2048");
}

#[test]
fn dsa_key_is_critical() {
    let f = scanner::classify_ssh_key("d.pub", "ssh-dss AAAAB3NzaC1kc3M c", None).unwrap();
    assert_eq!(f.severity, "critical");
    assert_eq!(f.current_crypto, "DSA-1024");
    assert_eq!(f.detail, "DSA is deprecated by OpenSSH and quantum-breakable");
    assert_eq!(f.remediation, "auto");
}

#[test]
fn ed25519_target_is_the_hybrid() {
    let f = scanner::classify_ssh_key("e.pub", ED25519_PUB, None).unwrap();
    assert_eq!(f.target_crypto, "Ed25519 + ML-DSA-65 (hybrid)");
}

#[test]
fn unknown_key_type_needs_manual_review() {
    let f = scanner::classify_ssh_key("sk.pub", "sk-ssh-ed25519@openssh.com AAAA c", None).unwrap();
    assert_eq!(f.severity, "warn");
    assert_eq!(f.current_crypto, "sk-ssh-ed25519@openssh.com");
    assert_eq!(f.detail, "Unrecognized key type sk-ssh-ed25519@openssh.com");
    assert_eq!(f.remediation, "manual");
}

#[test]
fn blank_key_file_gives_no_finding() {
    assert!(scanner::classify_ssh_key("blank.pub", "  \n\t", None).is_none());
    assert!(scanner::classify_ssh_key("empty.pub", "", None).is_none());
}

#[test]
fn filevault_on_off_and_unknown() {
    let on = scanner::filevault_finding(Some("FileVault is On.\n"));
    assert_eq!(on.severity, "ok");
    assert_eq!(on.current_crypto, "AES-XTS-128/256");
    let off = scanner::filevault_finding(Some("FileVault is Off.\n"));
    assert_eq!(off.severity, "critical");
    assert_eq!(off.current_crypto, "None");
    assert_eq!(off.remediation, "manual");
    let unknown = scanner::filevault_finding(None);
    assert_eq!(unknown.severity, "critical");
    assert_eq!(unknown.category, "Disk");
}

#[test]
fn os_version_threshold_is_macos_14() {
    let new = scanner::os_version_finding("14.5");
    assert_eq!(new.name, "macOS 14.5");
    assert_eq!(new.severity, "ok");
    assert_eq!(new.current_crypto, "X25519 + Kyber (system TLS)");
    let fifteen = scanner::os_version_finding("15");
    assert_eq!(fifteen.severity, "ok");
    let old = scanner::os_version_finding("13.6.1");
    assert_eq!(old.severity, "warn");
    assert_eq!(old.remediation, "manual");
    let unknown = scanner::os_version_finding("unknown");
    assert_eq!(unknown.severity, "warn");
    assert_eq!(unknown.category, "System");
}

#[test]
fn git_signing_formats() {
    assert!(scanner::git_signing_finding("").is_none());
    assert!(scanner::git_signing_finding(" \n").is_none());
    let ssh = scanner::git_signing_finding("ssh\n").unwrap();
    assert_eq!(ssh.severity, "ok");
    assert_eq!(ssh.name, "Git commit signing");
    let gpg = scanner::git_signing_finding("openpgp\n").unwrap();
    assert_eq!(gpg.severity, "warn");
    assert_eq!(gpg.name, "Git commit signing (GPG)");
    assert_eq!(gpg.target_crypto, "Ed25519 SSH signing");
}

#[test]
fn known_hosts_counts_weak_server_keys() {
    let content = "github.com ssh-ed25519 AAAAC3\nold.example ssh-rsa AAAAB3\n\n\
                   ancient.example ssh-dss AAAAB3\n";
    let f = scanner::known_hosts_finding(content).unwrap();
    assert_eq!(f.severity, "warn");
    assert_eq!(
        f.detail,
        "2 of 3 remembered servers present RSA/DSA host keys. The fix is server-side; \
         reconnecting after servers upgrade refreshes these."
    );
    assert_eq!(f.current_crypto, "2\u{d7} ssh-rsa/dss");
    assert_eq!(f.remediation, "manual");
}

#[test]
fn known_hosts_all_modern_and_empty() {
    let f = scanner::known_hosts_finding("a ssh-ed25519 AAA\nb ecdsa-sha2-nistp256 AAA\n").unwrap();
    assert_eq!(f.severity, "ok");
    assert_eq!(f.detail, "All 2 remembered server keys use modern algorithms");
    assert!(scanner::known_hosts_finding("").is_none());
    assert!(scanner::known_hosts_finding("\n  \n").is_none());
}

#[test]
fn gpg_keys_are_classified_by_algorithm_id() {
    let listing = "tru::1:1700000000:0:3:1:5\n\
                   pub:u:3072:1:ABCDEF0123456789:1700000000:::u:::scESC::::::23::0:\n\
                   uid:u::::1700000000::HASH::Me <me@example.com>::::::::::0:\n\
                   pub:u:255:22:1122334455667788:1700000000:::u:::scESC::::::ed25519:::0:\n\
                   pub:u:1024:17:0000000011111111:1600000000:::u:::scESC:::\n\
                   pub:u:4096:99:AAAA:1600000000\n";
    let fs = scanner::gpg_findings(listing);
    assert_eq!(fs.len(), 4);
    assert_eq!(fs[0].id, "gpg:ABCDEF0123456789");
    assert_eq!(fs[0].name, "GPG key \u{2026}23456789");
    assert_eq!(fs[0].severity, "warn");
    assert_eq!(fs[0].current_crypto, "RSA-3072");
    assert_eq!(fs[0].remediation, "manual");
    assert_eq!(fs[1].severity, "ok");
    assert_eq!(fs[1].current_crypto, "EdDSA (Ed25519)");
    assert_eq!(
        fs[1].detail,
        "Modern curve signature; quantum-safe GPG requires a future ML-DSA-capable release"
    );
    assert_eq!(fs[2].severity, "critical");
    assert_eq!(fs[2].current_crypto, "DSA/ElGamal-1024");
    assert_eq!(fs[3].current_crypto, "algo #99");
    assert_eq!(fs[3].name, "GPG key \u{2026}AAAA");
}

#[test]
fn gpg_listing_without_keys_gives_nothing() {
    assert!(scanner::gpg_findings("").is_empty());
    assert!(scanner::gpg_findings("tru::1:1700000000:0:3:1:5\n").is_empty());
}

fn airport_output(security: &str) -> String {
    format!(
        "Wi-Fi:\n\n  Interfaces:\n    en0:\n      Current Network Information:\n        Home:\n          \
         PHY Mode: 802.11ax\n          Security: {security}\n      Other Local Wi-Fi Networks:\n        \
         Cafe:\n          Security: None\n"
    )
}

#[test]
fn wifi_security_modes() {
    let wpa2 = scanner::wifi_finding(&airport_output("WPA2 Personal")).unwrap();
    assert_eq!(wpa2.id, "net:wifi");
    assert_eq!(wpa2.severity, "warn");
    assert_eq!(wpa2.remediation, "auto");
    assert_eq!(wpa2.current_crypto, "WPA2 Personal");
    let wpa3 = scanner::wifi_finding(&airport_output("WPA3 Personal")).unwrap();
    assert_eq!(wpa3.severity, "ok");
    assert_eq!(wpa3.remediation, "none");
    let open = scanner::wifi_finding(&airport_output("None")).unwrap();
    assert_eq!(open.severity, "critical");
    let wep = scanner::wifi_finding(&airport_output("WEP")).unwrap();
    assert_eq!(wep.severity, "warn");
    assert_eq!(wep.detail, "Legacy security mode: WEP");
}

#[test]
fn wifi_without_current_network_gives_nothing() {
    assert!(scanner::wifi_finding("Wi-Fi:\n  Interfaces:\n    en0:\n      Status: Off\n").is_none());
}

#[test]
fn pem_dump_is_split_into_certificates() {
    let pem = "-----BEGIN CERTIFICATE-----\nAAA\n-----END CERTIFICATE-----\n\
               -----BEGIN CERTIFICATE-----\nBBB\n-----END CERTIFICATE-----\n";
    let certs = scanner::pem_certificates(pem);
    assert_eq!(certs.len(), 2);
    assert_eq!(certs[0], "-----BEGIN CERTIFICATE-----\nAAA\n-----END CERTIFICATE-----\n");
    assert_eq!(certs[1], "\n-----BEGIN CERTIFICATE-----\nBBB\n-----END CERTIFICATE-----\n");
    assert!(scanner::pem_certificates("").is_empty());
}

#[test]
fn weak_rsa_certificates_are_detected() {
    let weak = "Certificate:\n    Subject Public Key Info:\n        Public Key Algorithm: rsaEncryption\n            \
                Public-Key: (1024 bit)\n";
    let strong = "        Public Key Algorithm: rsaEncryption\n            Public-Key: (2048 bit)\n";
    let ec = "        Public Key Algorithm: id-ecPublicKey\n            Public-Key: (256 bit)\n";
    assert!(scanner::cert_is_weak_rsa(weak));
    assert!(!scanner::cert_is_weak_rsa(strong));
    assert!(!scanner::cert_is_weak_rsa(ec));
    let texts = vec![weak.to_string(), strong.to_string(), ec.to_string(), weak.to_string()];
    assert_eq!(scanner::weak_rsa_count(&texts), 2);
}

#[test]
fn keychain_summary() {
    let f = scanner::keychain_finding(1, 3).unwrap();
    assert_eq!(f.severity, "warn");
    assert_eq!(f.current_crypto, "1\u{d7} RSA<2048");
    assert!(f.detail.starts_with("1 of 3 certificates carry RSA keys under 2048 bits"));
    let ok = scanner::keychain_finding(0, 3).unwrap();
    assert_eq!(ok.severity, "ok");
    assert_eq!(ok.detail, "All 3 certificates use \u{2265}2048-bit keys");
    assert!(scanner::keychain_finding(0, 0).is_none());
}

#[test]
fn scan_counts_tally_severities() {
    let findings = vec![
        scanner::filevault_finding(None),
        scanner::os_version_finding("13.0"),
        scanner::os_version_finding("14.0"),
        scanner::classify_ssh_key("a.pub", "ssh-dss AAA", None).unwrap(),
    ];
    let c = scanner::scan_counts(&findings);
    assert_eq!(c.total, 4);
    assert_eq!(c.critical, 2);
    assert_eq!(c.warn, 1);
}

#[test]
fn full_scan_keeps_scanner_order() {
    let fs = scanner::assemble_findings(
        vec![scanner::no_ssh_keys_finding("/k")],
        scanner::filevault_finding(None),
        scanner::os_version_finding("14.1"),
        None,
        scanner::known_hosts_finding("a ssh-ed25519 AAA\n"),
        scanner::gpg_findings("pub:u:255:22:1122334455667788:1\n"),
        None,
        scanner::keychain_finding(0, 2),
    );
    let ids: Vec<&str> = fs.iter().map(|f| f.id.as_str()).collect();
    assert_eq!(
        ids,
        vec!["ssh:none", "disk:filevault", "os:version", "ssh:known_hosts", "gpg:1122334455667788", "keychain:certs"]
    );
}
