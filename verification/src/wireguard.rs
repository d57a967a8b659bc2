//! WireGuard keys and configuration files for both ends of the tunnel.

use crate::primitives::{
    base64_decode, base64_decode_text, base64_encode, base64_encode_bytes, is_base64_char,
    x25519_public, x25519_public_key, x25519_random_secret,
};
use crate::text::{
    contains, lemma_concat_avoids, lemma_missing_char, lemma_no_straddle_after_assignment,
    lemma_no_straddle_by_first, joined, lemma_trim_unchanged, owned, to_array32, trim, trim_str};
use vstd::prelude::*;

verus! {

/// A WireGuard key pair in its base64 wire form.
pub struct WgKeypair {
    pub private_b64: String,
    pub public_b64: String,
}

/// `kp` is the wire form of the 32-byte secret `secret` and its public key:
/// base64 text that decodes back to the secret.
pub open spec fn keypair_of(kp: WgKeypair, secret: Seq<u8>) -> bool {
    &&& secret.len() == 32
    &&& kp.private_b64@ == base64_encode(secret)
    &&& base64_decode(kp.private_b64@) == Some(secret)
    &&& forall|i: int|
        0 <= i < kp.private_b64@.len() ==> is_base64_char(#[trigger] kp.private_b64@[i])
    &&& kp.public_b64@ == base64_encode(x25519_public_key(secret))
}

/// A fresh random WireGuard key pair.
pub fn generate_wg_keypair() -> (kp: WgKeypair)
    ensures
        exists|secret: Seq<u8>| #[trigger] keypair_of(kp, secret),
{
    let secret = x25519_random_secret();
    let public = x25519_public(&secret);
    let kp = WgKeypair {
        private_b64: base64_encode_bytes(secret.as_slice()),
        public_b64: base64_encode_bytes(public.as_slice()),
    };
    assert(keypair_of(kp, secret@));
    kp
}

/// The key pair (private, public) a key file holds: its trimmed text, when
/// that is base64 of exactly 32 bytes, and the public key derived from it.
pub open spec fn stored_keypair(file_text: Seq<char>) -> Option<(Seq<char>, Seq<char>)> {
    match base64_decode(trim(file_text)) {
        Some(secret) => if secret.len() == 32 {
            Some((trim(file_text), base64_encode(x25519_public_key(secret))))
        } else {
            None
        },
        None => None,
    }
}

/// See [`stored_keypair`].
pub fn stored_wg_keypair(file_text: &str) -> (kp: Option<WgKeypair>)
    ensures
        match stored_keypair(file_text@) {
            Some((private_b64, public_b64)) => kp matches Some(k) && k.private_b64@ == private_b64
                && k.public_b64@ == public_b64,
            None => kp is None,
        },
{
    let private_b64 = trim_str(file_text);
    let bytes = match base64_decode_text(private_b64.as_str()) {
        Ok(b) => b,
        Err(_) => return None,
    };
    if bytes.len() != 32 {
        return None;
    }
    let secret = to_array32(bytes.as_slice());
    let public = x25519_public(&secret);
    Some(WgKeypair { private_b64, public_b64: base64_encode_bytes(public.as_slice()) })
}

/// The edge's key survives restarts: a generated key pair, saved as its
/// private key text and loaded back, is the same key pair.
pub proof fn lemma_generated_key_reloads(kp: WgKeypair, secret: Seq<u8>)
    requires
        keypair_of(kp, secret),
    ensures
        stored_keypair(kp.private_b64@) == Some((kp.private_b64@, kp.public_b64@)),
{
    let t = kp.private_b64@;
    if t.len() > 0 {
        assert(is_base64_char(t[0]));
        assert(is_base64_char(t[t.len() - 1]));
    }
    lemma_trim_unchanged(t);
}

/// The view of an optional string.
pub open spec fn opt_view(v: Option<&str>) -> Option<Seq<char>> {
    match v {
        Some(s) => Some(s@),
        None => None,
    }
}

/// `key` followed by the value and a newline, or nothing without a value.
pub open spec fn optional_line(key: Seq<char>, value: Option<Seq<char>>) -> Seq<char> {
    match value {
        Some(v) => key + v + "\n"@,
        None => Seq::empty(),
    }
}

/// The client configuration file.
pub open spec fn client_conf_text(
    private_b64: Seq<char>,
    client_ip: Seq<char>,
    server_pub_b64: Seq<char>,
    endpoint: Seq<char>,
    allowed_ips: Seq<char>,
    dns: Option<Seq<char>>,
    preshared_key_b64: Option<Seq<char>>,
) -> Seq<char> {
    "# CryptiQ Personal \u{2014} generated after ML-KEM-768 + X25519 handshake\n"@
        + "# The PresharedKey below is derived from the ML-KEM-768 shared secret,\n"@
        + "# making the WireGuard data plane quantum-resistant as well.\n"@
        + "# Do not share this file; it contains your WireGuard private key.\n"@
        + "[Interface]\nPrivateKey = "@ + private_b64 + "\nAddress = "@ + client_ip + "/32\n"@
        + optional_line("DNS = "@, dns) + "[Peer]\nPublicKey = "@ + server_pub_b64 + "\n"@
        + optional_line("PresharedKey = "@, preshared_key_b64) + "Endpoint = "@ + endpoint
        + "\nAllowedIPs = "@ + allowed_ips + "\nPersistentKeepalive = 25\n"@
}

/// The `[Interface]` part of a client configuration, up to and including
/// its `Address` line.
pub open spec fn conf_interface(private_b64: Seq<char>, client_ip: Seq<char>) -> Seq<char> {
    "# CryptiQ Personal \u{2014} generated after ML-KEM-768 + X25519 handshake\n"@
        + "# The PresharedKey below is derived from the ML-KEM-768 shared secret,\n"@
        + "# making the WireGuard data plane quantum-resistant as well.\n"@
        + "# Do not share this file; it contains your WireGuard private key.\n"@
        + "[Interface]\nPrivateKey = "@ + private_b64 + "\nAddress = "@ + client_ip + "/32\n"@
}

/// The `[Peer]` header of a client configuration, up to and including its
/// `PublicKey` line.
pub open spec fn conf_peer(server_pub_b64: Seq<char>) -> Seq<char> {
    "[Peer]\nPublicKey = "@ + server_pub_b64 + "\n"@
}

/// The closing lines of a client configuration.
pub open spec fn conf_tail(endpoint: Seq<char>, allowed_ips: Seq<char>) -> Seq<char> {
    "Endpoint = "@ + endpoint + "\nAllowedIPs = "@ + allowed_ips + "\nPersistentKeepalive = 25\n"@
}

/// The optional lines are insertions: a configuration is the one without
/// resolver and PresharedKey, with `DNS = ..` inserted right after the
/// `Address` line and `PresharedKey = ..` right after the `PublicKey` line
/// when they are given.
pub proof fn lemma_optional_lines_are_insertions(
    private_b64: Seq<char>,
    client_ip: Seq<char>,
    server_pub_b64: Seq<char>,
    endpoint: Seq<char>,
    allowed_ips: Seq<char>,
    dns: Option<Seq<char>>,
    preshared_key_b64: Option<Seq<char>>,
)
    ensures
        client_conf_text(private_b64, client_ip, server_pub_b64, endpoint, allowed_ips, None, None)
            == conf_interface(private_b64, client_ip) + conf_peer(server_pub_b64) + conf_tail(
            endpoint,
            allowed_ips,
        ),
        client_conf_text(
            private_b64,
            client_ip,
            server_pub_b64,
            endpoint,
            allowed_ips,
            dns,
            preshared_key_b64,
        ) == conf_interface(private_b64, client_ip) + optional_line("DNS = "@, dns) + conf_peer(
            server_pub_b64,
        ) + optional_line("PresharedKey = "@, preshared_key_b64) + conf_tail(endpoint, allowed_ips),
{
    let none = Seq::<char>::empty();
    assert(optional_line("DNS = "@, None) == none);
    assert(client_conf_text(private_b64, client_ip, server_pub_b64, endpoint, allowed_ips, None, None)
        =~= conf_interface(private_b64, client_ip) + conf_peer(server_pub_b64) + conf_tail(
        endpoint,
        allowed_ips,
    ));
    assert(client_conf_text(
        private_b64,
        client_ip,
        server_pub_b64,
        endpoint,
        allowed_ips,
        dns,
        preshared_key_b64,
    ) =~= conf_interface(private_b64, client_ip) + optional_line("DNS = "@, dns) + conf_peer(
        server_pub_b64,
    ) + optional_line("PresharedKey = "@, preshared_key_b64) + conf_tail(endpoint, allowed_ips));
}

/// The comment lines and `[Interface]` header of a client configuration.
pub open spec fn conf_preamble() -> Seq<char> {
    "# CryptiQ Personal \u{2014} generated after ML-KEM-768 + X25519 handshake\n"@ + "# The PresharedKey below is derived from the ML-KEM-768 shared secret,\n"@ + "# making the WireGuard data plane quantum-resistant as well.\n"@ + "# Do not share this file; it contains your WireGuard private key.\n"@ + "[Interface]\n"@
}

/// The configuration without resolver and PresharedKey, cut where the
/// arguments go in.
proof fn lemma_bare_conf_pieces(
    private_b64: Seq<char>,
    client_ip: Seq<char>,
    server_pub_b64: Seq<char>,
    endpoint: Seq<char>,
    allowed_ips: Seq<char>,
)
    ensures
        client_conf_text(private_b64, client_ip, server_pub_b64, endpoint, allowed_ips, None, None)
            == conf_preamble() + "PrivateKey = "@ + private_b64 + "\nAddress = "@ + client_ip
            + "/32\n[Peer]\nPublicKey = "@ + server_pub_b64 + "\nEndpoint = "@ + endpoint
            + "\nAllowedIPs = "@ + allowed_ips + "\nPersistentKeepalive = 25\n"@,
{
    reveal_strlit("[Interface]\nPrivateKey = ");
    reveal_strlit("[Interface]\n");
    reveal_strlit("PrivateKey = ");
    reveal_strlit("/32\n");
    reveal_strlit("[Peer]\nPublicKey = ");
    reveal_strlit("/32\n[Peer]\nPublicKey = ");
    reveal_strlit("\n");
    reveal_strlit("Endpoint = ");
    reveal_strlit("\nEndpoint = ");
    assert(client_conf_text(private_b64, client_ip, server_pub_b64, endpoint, allowed_ips, None, None)
        =~= conf_preamble() + "PrivateKey = "@ + private_b64 + "\nAddress = "@ + client_ip
        + "/32\n[Peer]\nPublicKey = "@ + server_pub_b64 + "\nEndpoint = "@ + endpoint
        + "\nAllowedIPs = "@ + allowed_ips + "\nPersistentKeepalive = 25\n"@);
}

/// A pattern that no fixed piece of the bare configuration contains, that
/// has no `\n`, `/` or `P` after its first character, and none of whose
/// proper prefixes ends in `= `, occurs in the bare configuration only
/// inside an argument.
proof fn lemma_bare_conf_avoids(
    private_b64: Seq<char>,
    client_ip: Seq<char>,
    server_pub_b64: Seq<char>,
    endpoint: Seq<char>,
    allowed_ips: Seq<char>,
    p: Seq<char>,
)
    requires
        p.len() > 0,
        p[0] != ' ',
        forall|j: int| 2 <= j < p.len() && p[j - 1] == ' ' ==> #[trigger] p[j - 2] != '=',
        forall|j: int|
            1 <= j < p.len() ==> #[trigger] p[j] != '\n' && p[j] != '/' && p[j] != 'P',
        !contains(conf_preamble(), p),
        !contains("PrivateKey = "@, p),
        !contains("\nAddress = "@, p),
        !contains("/32\n[Peer]\nPublicKey = "@, p),
        !contains("\nEndpoint = "@, p),
        !contains("\nAllowedIPs = "@, p),
        !contains("\nPersistentKeepalive = 25\n"@, p),
        !contains(private_b64, p),
        !contains(client_ip, p),
        !contains(server_pub_b64, p),
        !contains(endpoint, p),
        !contains(allowed_ips, p),
    ensures
        !contains(
            client_conf_text(private_b64, client_ip, server_pub_b64, endpoint, allowed_ips, None, None),
            p,
        ),
{
    reveal_strlit("PrivateKey = ");
    reveal_strlit("\nAddress = ");
    reveal_strlit("/32\n[Peer]\nPublicKey = ");
    reveal_strlit("\nEndpoint = ");
    reveal_strlit("\nAllowedIPs = ");
    reveal_strlit("\nPersistentKeepalive = 25\n");
    lemma_bare_conf_pieces(private_b64, client_ip, server_pub_b64, endpoint, allowed_ips);
    let s1 = conf_preamble() + "PrivateKey = "@;
    lemma_no_straddle_by_first(conf_preamble(), "PrivateKey = "@, p);
    lemma_concat_avoids(conf_preamble(), "PrivateKey = "@, p);
    let s2 = s1 + private_b64;
    lemma_no_straddle_after_assignment(s1, private_b64, p);
    lemma_concat_avoids(s1, private_b64, p);
    let s3 = s2 + "\nAddress = "@;
    lemma_no_straddle_by_first(s2, "\nAddress = "@, p);
    lemma_concat_avoids(s2, "\nAddress = "@, p);
    let s4 = s3 + client_ip;
    lemma_no_straddle_after_assignment(s3, client_ip, p);
    lemma_concat_avoids(s3, client_ip, p);
    let s5 = s4 + "/32\n[Peer]\nPublicKey = "@;
    lemma_no_straddle_by_first(s4, "/32\n[Peer]\nPublicKey = "@, p);
    lemma_concat_avoids(s4, "/32\n[Peer]\nPublicKey = "@, p);
    let s6 = s5 + server_pub_b64;
    lemma_no_straddle_after_assignment(s5, server_pub_b64, p);
    lemma_concat_avoids(s5, server_pub_b64, p);
    let s7 = s6 + "\nEndpoint = "@;
    lemma_no_straddle_by_first(s6, "\nEndpoint = "@, p);
    lemma_concat_avoids(s6, "\nEndpoint = "@, p);
    let s8 = s7 + endpoint;
    lemma_no_straddle_after_assignment(s7, endpoint, p);
    lemma_concat_avoids(s7, endpoint, p);
    let s9 = s8 + "\nAllowedIPs = "@;
    lemma_no_straddle_by_first(s8, "\nAllowedIPs = "@, p);
    lemma_concat_avoids(s8, "\nAllowedIPs = "@, p);
    let s10 = s9 + allowed_ips;
    lemma_no_straddle_after_assignment(s9, allowed_ips, p);
    lemma_concat_avoids(s9, allowed_ips, p);
    lemma_no_straddle_by_first(s10, "\nPersistentKeepalive = 25\n"@, p);
    lemma_concat_avoids(s10, "\nPersistentKeepalive = 25\n"@, p);
}

/// A client configuration rendered without a resolver and without a
/// PresharedKey has neither a `DNS = ` nor a `PresharedKey = ` in it,
/// provided none of its arguments has.
pub proof fn lemma_bare_conf_has_no_optional_lines(
    private_b64: Seq<char>,
    client_ip: Seq<char>,
    server_pub_b64: Seq<char>,
    endpoint: Seq<char>,
    allowed_ips: Seq<char>,
)
    requires
        !contains(private_b64, "DNS = "@) && !contains(private_b64, "PresharedKey = "@),
        !contains(client_ip, "DNS = "@) && !contains(client_ip, "PresharedKey = "@),
        !contains(server_pub_b64, "DNS = "@) && !contains(server_pub_b64, "PresharedKey = "@),
        !contains(endpoint, "DNS = "@) && !contains(endpoint, "PresharedKey = "@),
        !contains(allowed_ips, "DNS = "@) && !contains(allowed_ips, "PresharedKey = "@),
    ensures
        !contains(
            client_conf_text(private_b64, client_ip, server_pub_b64, endpoint, allowed_ips, None, None),
            "DNS = "@,
        ),
        !contains(
            client_conf_text(private_b64, client_ip, server_pub_b64, endpoint, allowed_ips, None, None),
            "PresharedKey = "@,
        ),
{
    let dns = "DNS = "@;
    let psk = "PresharedKey = "@;
    reveal_strlit("DNS = ");
    reveal_strlit("PresharedKey = ");
        reveal_strlit("# CryptiQ Personal \u{2014} generated after ML-KEM-768 + X25519 handshake\n");
        reveal_strlit("# The PresharedKey below is derived from the ML-KEM-768 shared secret,\n");
        reveal_strlit("# making the WireGuard data plane quantum-resistant as well.\n");
        reveal_strlit("# Do not share this file; it contains your WireGuard private key.\n");
    reveal_strlit("[Interface]\n");
    reveal_strlit("PrivateKey = ");
    reveal_strlit("\nAddress = ");
    reveal_strlit("/32\n[Peer]\nPublicKey = ");
    reveal_strlit("\nEndpoint = ");
    reveal_strlit("\nAllowedIPs = ");
    reveal_strlit("\nPersistentKeepalive = 25\n");
    // "DNS = ": no fixed piece has an `N`.
    lemma_missing_char(conf_preamble(), dns, 1);
    lemma_missing_char("PrivateKey = "@, dns, 1);
    lemma_missing_char("\nAddress = "@, dns, 1);
    lemma_missing_char("/32\n[Peer]\nPublicKey = "@, dns, 1);
    lemma_missing_char("\nEndpoint = "@, dns, 1);
    lemma_missing_char("\nAllowedIPs = "@, dns, 1);
    lemma_missing_char("\nPersistentKeepalive = 25\n"@, dns, 1);
    lemma_bare_conf_avoids(private_b64, client_ip, server_pub_b64, endpoint, allowed_ips, dns);
    // "PresharedKey = ": the preamble has no `=`, the other pieces no `h`.
    lemma_missing_char(conf_preamble(), psk, 13);
    lemma_missing_char("PrivateKey = "@, psk, 4);
    lemma_missing_char("\nAddress = "@, psk, 4);
    lemma_missing_char("/32\n[Peer]\nPublicKey = "@, psk, 4);
    lemma_missing_char("\nEndpoint = "@, psk, 4);
    lemma_missing_char("\nAllowedIPs = "@, psk, 4);
    lemma_missing_char("\nPersistentKeepalive = 25\n"@, psk, 4);
    lemma_bare_conf_avoids(private_b64, client_ip, server_pub_b64, endpoint, allowed_ips, psk);
}

fn append_optional_line(s: &mut String, key: &str, value: Option<&str>)
    ensures
        final(s)@ == old(s)@ + optional_line(key@, opt_view(value)),
{
    match value {
        Some(v) => {
            s.append(key);
            s.append(v);
            s.append("\n");
            assert(final(s)@ =~= old(s)@ + optional_line(key@, opt_view(value)));
        },
        None => {
            assert(old(s)@ + optional_line(key@, opt_view(value)) =~= old(s)@);
        },
    }
}

/// The client's WireGuard configuration: its key and address, the optional
/// resolver, the edge as peer with the optional PresharedKey, and the routes
/// sent through the tunnel.
pub fn render_tunnel_conf(
    private_b64: &str,
    client_ip: &str,
    server_pub_b64: &str,
    endpoint: &str,
    allowed_ips: &str,
    dns: Option<&str>,
    preshared_key_b64: Option<&str>,
) -> (conf: String)
    ensures
        conf@ == client_conf_text(
            private_b64@,
            client_ip@,
            server_pub_b64@,
            endpoint@,
            allowed_ips@,
            opt_view(dns),
            opt_view(preshared_key_b64),
        ),
{
    let mut s = String::new();
    s.append("# CryptiQ Personal \u{2014} generated after ML-KEM-768 + X25519 handshake\n");
    s.append("# The PresharedKey below is derived from the ML-KEM-768 shared secret,\n");
    s.append("# making the WireGuard data plane quantum-resistant as well.\n");
    s.append("# Do not share this file; it contains your WireGuard private key.\n");
    s.append("[Interface]\nPrivateKey = ");
    s.append(private_b64);
    s.append("\nAddress = ");
    s.append(client_ip);
    s.append("/32\n");
    append_optional_line(&mut s, "DNS = ", dns);
    s.append("[Peer]\nPublicKey = ");
    s.append(server_pub_b64);
    s.append("\n");
    append_optional_line(&mut s, "PresharedKey = ", preshared_key_b64);
    s.append("Endpoint = ");
    s.append(endpoint);
    s.append("\nAllowedIPs = ");
    s.append(allowed_ips);
    s.append("\nPersistentKeepalive = 25\n");
    assert(s@ =~= client_conf_text(
        private_b64@,
        client_ip@,
        server_pub_b64@,
        endpoint@,
        allowed_ips@,
        opt_view(dns),
        opt_view(preshared_key_b64),
    ));
    s
}

/// A peer-only client configuration without a PresharedKey: only the
/// server's VPN address (as a `/32` host route) goes through the tunnel.
pub fn render_wg_conf(
    private_b64: &str,
    client_ip: &str,
    server_pub_b64: &str,
    endpoint: &str,
    server_vpn_ip: &str,
    dns: Option<&str>,
) -> (conf: String)
    ensures
        conf@ == client_conf_text(
            private_b64@,
            client_ip@,
            server_pub_b64@,
            endpoint@,
            server_vpn_ip@ + "/32"@,
            opt_view(dns),
            None,
        ),
{
    let allowed = joined(server_vpn_ip, "/32");
    render_tunnel_conf(
        private_b64,
        client_ip,
        server_pub_b64,
        endpoint,
        allowed.as_str(),
        dns,
        None,
    )
}

/// The routes a client sends through the tunnel: everything in full-tunnel
/// mode, otherwise only the edge's VPN address.
pub open spec fn allowed_ips_for(full_tunnel: bool, server_vpn_ip: Seq<char>) -> Seq<char> {
    if full_tunnel {
        "0.0.0.0/0, ::/0"@
    } else {
        server_vpn_ip + "/32"@
    }
}

/// See [`allowed_ips_for`].
pub fn allowed_ips(full_tunnel: bool, server_vpn_ip: &str) -> (ips: String)
    ensures
        ips@ == allowed_ips_for(full_tunnel, server_vpn_ip@),
{
    if full_tunnel {
        owned("0.0.0.0/0, ::/0")
    } else {
        joined(server_vpn_ip, "/32")
    }
}

/// The resolver a client pins: the one the edge advertises; failing that,
/// in full-tunnel mode, the edge's own VPN address (so lookups cannot leak
/// outside the tunnel); otherwise none.
pub fn tunnel_dns(advertised: &Option<String>, full_tunnel: bool, server_vpn_ip: &str) -> (dns:
    Option<String>)
    ensures
        match advertised {
            Some(d) => dns matches Some(x) && x@ == d@,
            None => if full_tunnel {
                dns matches Some(x) && x@ == server_vpn_ip@
            } else {
                dns is None
            },
        },
{
    match advertised {
        Some(d) => Some(d.clone()),
        None => if full_tunnel {
            Some(owned(server_vpn_ip))
        } else {
            None
        },
    }
}

} // verus!
