//! Tunnel manager: the state of the client's tunnel and the decisions of a
//! connection (hybrid PQ handshake with an edge, then WireGuard).
//!
//! Flow: the caller fetches the edge's hello, finishes the handshake
//! locally, posts the finish request, and hands the edge's answer here; this
//! module checks it, renders the WireGuard configuration and the resulting
//! status, and folds in the outcome of bringing the interface up. The
//! network, file system and `wg-quick` stay with the caller.

use crate::pqc::{
    client_exchange, client_finish, fingerprint_of, hybrid_client_key, hybrid_edge_key,
    lemma_client_and_server_agree,
    lemma_fingerprint_shape, mlkem768_recovers, psk_fingerprint, psk_fingerprint_of, reports, server_start,
    standard_parameters, derive_wg_psk, to_handshake_result, wg_psk_of, EdgeFinishResponse,
    EdgeHello, HandshakeResult, SessionSecrets,
};
use crate::primitives::{
    base64_decode, base64_encode, mlkem768_encaps, x25519_public_key, MLKEM768_CT_BYTES,
    MLKEM768_DK_BYTES, MLKEM768_EK_BYTES,
};
use crate::text::{contains, is_lower_hex_digit, joined, owned, str_contains, trim, trim_str};
use crate::wireguard::{
    allowed_ips, allowed_ips_for, client_conf_text, generate_wg_keypair, keypair_of,
    render_tunnel_conf,
    tunnel_dns,
};
use vstd::prelude::*;

verus! {

/// The edge a client talks to when none is configured.
pub open spec fn default_edge() -> Seq<char> {
    "http://64.181.224.148:8787"@
}

/// What the UI shows of the tunnel.
pub struct TunnelStatus {
    /// "down" | "handshaking" | "up" | "config_ready"
    pub state: String,
    pub handshake: Option<HandshakeResult>,
    pub edge_url: String,
    pub config_path: Option<String>,
    pub client_vpn_ip: Option<String>,
    pub endpoint: Option<String>,
    pub message: String,
    /// "wireguard" | "handshake_only"
    pub transport: String,
    /// "peer_only" | "full_tunnel"
    pub routing: String,
    /// Fingerprint of the ML-KEM-derived WireGuard PresharedKey (never the key itself).
    pub psk_fingerprint: Option<String>,
}

/// `s` is the idle status for edge `edge_url`.
pub open spec fn idle(s: TunnelStatus, edge_url: Seq<char>) -> bool {
    &&& s.state@ == "down"@
    &&& s.handshake is None
    &&& s.edge_url@ == edge_url
    &&& s.config_path is None
    &&& s.client_vpn_ip is None
    &&& s.endpoint is None
    &&& s.message@ == "Tunnel idle"@
    &&& s.transport@ == "handshake_only"@
    &&& s.routing@ == "peer_only"@
    &&& s.psk_fingerprint is None
}

/// The idle status for an edge.
pub fn idle_status(edge_url: String) -> (s: TunnelStatus)
    ensures
        idle(s, edge_url@),
{
    TunnelStatus {
        state: owned("down"),
        handshake: None,
        edge_url,
        config_path: None,
        client_vpn_ip: None,
        endpoint: None,
        message: owned("Tunnel idle"),
        transport: owned("handshake_only"),
        routing: owned("peer_only"),
        psk_fingerprint: None,
    }
}

impl Default for TunnelStatus {
    fn default() -> (s: Self)
        ensures
            idle(s, default_edge()),
    {
        idle_status(owned("http://64.181.224.148:8787"))
    }
}

/// A copy of an optional string.
pub fn copy_opt(v: &Option<String>) -> (c: Option<String>)
    ensures
        c == *v,
{
    match v {
        Some(s) => Some(s.clone()),
        None => None,
    }
}

/// A copy of a handshake report.
pub fn copy_handshake(h: &HandshakeResult) -> (c: HandshakeResult)
    ensures
        c == *h,
{
    HandshakeResult {
        kem: h.kem.clone(),
        classical: h.classical.clone(),
        kdf: h.kdf.clone(),
        session_fingerprint: h.session_fingerprint.clone(),
        kem_ciphertext_preview: h.kem_ciphertext_preview.clone(),
        kem_ciphertext_bytes: h.kem_ciphertext_bytes,
        kem_encaps_key_bytes: h.kem_encaps_key_bytes,
        kem_shared_secret_bytes: h.kem_shared_secret_bytes,
        classical_shared_secret_bytes: h.classical_shared_secret_bytes,
        kdf_label: h.kdf_label.clone(),
        duration_ns: h.duration_ns,
    }
}

/// A copy of a status.
pub fn copy_status(s: &TunnelStatus) -> (c: TunnelStatus)
    ensures
        c == *s,
{
    TunnelStatus {
        state: s.state.clone(),
        handshake: match &s.handshake {
            Some(h) => Some(copy_handshake(h)),
            None => None,
        },
        edge_url: s.edge_url.clone(),
        config_path: copy_opt(&s.config_path),
        client_vpn_ip: copy_opt(&s.client_vpn_ip),
        endpoint: copy_opt(&s.endpoint),
        message: s.message.clone(),
        transport: s.transport.clone(),
        routing: s.routing.clone(),
        psk_fingerprint: copy_opt(&s.psk_fingerprint),
    }
}

/// A status with no connection under way: down with no handshake or
/// configuration; or config_ready over the handshake transport with both; or
/// up over WireGuard with both.
pub open spec fn settled(s: TunnelStatus) -> bool {
    ||| s.state@ == "down"@ && s.handshake is None && s.config_path is None
    ||| s.state@ == "config_ready"@ && s.transport@ == "handshake_only"@ && s.config_path is Some
        && s.handshake is Some
    ||| s.state@ == "up"@ && s.transport@ == "wireguard"@ && s.config_path is Some
        && s.handshake is Some
}

/// The state is "up" or "config_ready": a tunnel has been negotiated.
pub open spec fn connected(s: TunnelStatus) -> bool {
    s.state@ == "up"@ || s.state@ == "config_ready"@
}

/// One completed operation of the tunnel, by its effect on the status: a
/// disconnect (idle towards the same edge); a retry on a tunnel already up
/// (nothing changes); a bring-up of a written configuration (up over
/// WireGuard, same configuration and handshake); or a connection from a
/// tunnel not negotiated, which ends down with nothing negotiated when it
/// fails, and settled when it succeeds.
pub open spec fn tunnel_step(s0: TunnelStatus, s1: TunnelStatus) -> bool {
    ||| idle(s1, s0.edge_url@)
    ||| s0.state@ == "up"@ && s1 == s0
    ||| s0.state@ != "up"@ && s0.config_path is Some && s1.state@ == "up"@ && s1.transport@
        == "wireguard"@ && s1.config_path == s0.config_path && s1.handshake == s0.handshake
    ||| !connected(s0) && s1.state@ == "down"@ && s1.handshake is None && s1.config_path is None
    ||| !connected(s0) && settled(s1)
}

/// A completed operation keeps the status settled.
pub proof fn lemma_step_keeps_settled(s0: TunnelStatus, s1: TunnelStatus)
    requires
        settled(s0),
        tunnel_step(s0, s1),
    ensures
        settled(s1),
{
    reveal_strlit("down");
    reveal_strlit("up");
    reveal_strlit("config_ready");
    assert("down"@[0] != "config_ready"@[0] && "down"@[0] != "up"@[0]);
}

/// Whatever sequence of completed operations the tunnel goes through from a
/// settled status (as `TunnelController::new` gives), every status along
/// it is settled: down with no handshake or configuration, config_ready over
/// the handshake transport with both, or up over WireGuard with both.
pub proof fn lemma_settled_along(trace: Seq<TunnelStatus>)
    requires
        trace.len() > 0,
        settled(trace[0]),
        forall|i: int| 0 <= i < trace.len() - 1 ==> tunnel_step(#[trigger] trace[i], trace[i + 1]),
    ensures
        forall|i: int| 0 <= i < trace.len() ==> settled(#[trigger] trace[i]),
{
    assert forall|i: int| 0 <= i < trace.len() implies settled(#[trigger] trace[i]) by {
        lemma_settled_prefix(trace, i);
    }
}

proof fn lemma_settled_prefix(trace: Seq<TunnelStatus>, n: int)
    requires
        0 <= n < trace.len(),
        settled(trace[0]),
        forall|i: int| 0 <= i < trace.len() - 1 ==> tunnel_step(#[trigger] trace[i], trace[i + 1]),
    ensures
        settled(trace[n]),
    decreases n,
{
    if n > 0 {
        lemma_settled_prefix(trace, n - 1);
        assert(tunnel_step(trace[n - 1], trace[n]));
        lemma_step_keeps_settled(trace[n - 1], trace[n]);
    }
}

/// The edge a connection goes to: the given URL unless it is missing or
/// blank, else the default edge.
pub open spec fn chosen_edge(edge_url: Option<Seq<char>>) -> Seq<char> {
    match edge_url {
        Some(u) => if trim(u).len() == 0 {
            default_edge()
        } else {
            u
        },
        None => default_edge(),
    }
}

/// The view of an optional string.
pub open spec fn opt_seq(v: Option<String>) -> Option<Seq<char>> {
    match v {
        Some(s) => Some(s@),
        None => None,
    }
}

/// The client's tunnel: its status and the configuration that is up, if any.
pub struct TunnelController {
    pub status: TunnelStatus,
    /// Path of the configuration brought up, if any (used for disconnect).
    pub active_conf: Option<String>,
}

impl TunnelController {
    /// An idle tunnel towards the default edge.
    pub fn new() -> (t: TunnelController)
        ensures
            idle(t.status, default_edge()),
            t.active_conf is None,
            settled(t.status),
    {
        TunnelController { status: TunnelStatus::default(), active_conf: None }
    }

    /// The current status.
    pub fn status(&self) -> (s: TunnelStatus)
        ensures
            s == self.status,
    {
        copy_status(&self.status)
    }

    /// Tears the tunnel down: returns the configuration to take down (the one
    /// brought up, else the one written) and resets to idle, keeping the
    /// edge.
    pub fn disconnect(&mut self) -> (teardown: Option<String>)
        ensures
            teardown == match old(self).active_conf {
                Some(c) => Some(c),
                None => old(self).status.config_path,
            },
            idle(final(self).status, old(self).status.edge_url@),
            final(self).active_conf is None,
            settled(final(self).status),
            tunnel_step(old(self).status, final(self).status),
    {
        let conf = match self.active_conf.take() {
            Some(c) => Some(c),
            None => copy_opt(&self.status.config_path),
        };
        self.status = idle_status(self.status.edge_url.clone());
        conf
    }

    /// What retrying `wg-quick up` needs: nothing when already up, else the
    /// written configuration, else an error.
    pub fn bring_up_target(&self) -> (target: Result<Option<String>, String>)
        ensures
            self.status.state@ == "up"@ ==> target matches Ok(None),
            self.status.state@ != "up"@ ==> match self.status.config_path {
                Some(p) => target matches Ok(Some(q)) && q == p,
                None => target matches Err(e) && e@
                    == "no WireGuard config ready \u{2014} connect first"@,
            },
    {
        if self.status.state == owned("up") {
            return Ok(None);
        }
        match &self.status.config_path {
            Some(p) => Ok(Some(p.clone())),
            None => Err(owned("no WireGuard config ready \u{2014} connect first")),
        }
    }

    /// Records that the configuration at `conf_path` was brought up.
    pub fn mark_up(&mut self, conf_path: String)
        ensures
            final(self).active_conf == Some(conf_path),
            final(self).status.state@ == "up"@,
            final(self).status.transport@ == "wireguard"@,
            final(self).status.message@ == "Tunnel up \u{2014} traffic via ML-KEM-768 PSK + WireGuard ("@
                + match old(self).status.handshake {
                Some(h) => h.session_fingerprint@,
                None => Seq::empty(),
            } + ")"@,
            final(self).status.handshake == old(self).status.handshake,
            final(self).status.edge_url == old(self).status.edge_url,
            final(self).status.config_path == old(self).status.config_path,
            final(self).status.client_vpn_ip == old(self).status.client_vpn_ip,
            final(self).status.endpoint == old(self).status.endpoint,
            final(self).status.routing == old(self).status.routing,
            final(self).status.psk_fingerprint == old(self).status.psk_fingerprint,
            settled(old(self).status) && old(self).status.config_path is Some ==> settled(
                final(self).status,
            ),
            old(self).status.state@ != "up"@ && old(self).status.config_path is Some
                ==> tunnel_step(old(self).status, final(self).status),
    {
        self.active_conf = Some(conf_path);
        self.status.state = owned("up");
        self.status.transport = owned("wireguard");
        let fp = match &self.status.handshake {
            Some(h) => h.session_fingerprint.clone(),
            None => String::new(),
        };
        let mut msg = owned("Tunnel up \u{2014} traffic via ML-KEM-768 PSK + WireGuard (");
        msg.append(fp.as_str());
        msg.append(")");
        self.status.message = msg;
    }

    /// Starts a connection: refused while a tunnel is negotiated; otherwise
    /// the status turns to "handshaking" with the chosen edge.
    pub fn begin_connect(&mut self, edge_url: Option<String>) -> (edge: Result<String, String>)
        ensures
            connected(old(self).status) ==> (edge matches Err(e) && e@
                == "tunnel already connected \u{2014} disconnect first"@ && *final(self) == *old(self)),
            !connected(old(self).status) ==> (edge matches Ok(url) && url@ == chosen_edge(
                opt_seq(edge_url),
            ) && final(self).status.state@ == "handshaking"@ && final(self).status.edge_url@
                == url@ && final(self).status.message@ == "Negotiating hybrid handshake with "@
                + url@ && final(self).active_conf == old(self).active_conf),
    {
        let edge = match edge_url {
            Some(u) => {
                let t = trim_str(u.as_str());
                if t.as_str().is_empty() {
                    owned("http://64.181.224.148:8787")
                } else {
                    u
                }
            },
            None => owned("http://64.181.224.148:8787"),
        };
        if self.status.state == owned("up") || self.status.state == owned("config_ready") {
            return Err(owned("tunnel already connected \u{2014} disconnect first"));
        }
        self.status.state = owned("handshaking");
        self.status.edge_url = edge.clone();
        self.status.message = joined("Negotiating hybrid handshake with ", edge.as_str());
        Ok(edge)
    }

    /// Concludes a connection with the outcome of the attempt: the new
    /// status and active configuration, or the error, which leaves the
    /// tunnel down towards the same edge with the error as message.
    pub fn finish_connect(
        &mut self,
        edge: String,
        outcome: Result<(TunnelStatus, Option<String>), String>,
    ) -> (res: Result<TunnelStatus, String>)
        ensures
            outcome is Ok <==> res is Ok,
            outcome matches Ok(pair) ==> res->Ok_0 == pair.0 && final(self).status == pair.0
                && final(self).active_conf == pair.1,
            outcome matches Err(e) ==> res->Err_0 == e && final(self).status.state@ == "down"@
                && final(self).status.edge_url@ == edge@ && final(self).status.message == e
                && final(self).status.handshake is None && final(self).status.config_path is None
                && final(self).status.client_vpn_ip is None && final(self).status.endpoint is None
                && final(self).status.transport@ == "handshake_only"@ && final(self).status.routing@
                == "peer_only"@ && final(self).status.psk_fingerprint is None
                && final(self).active_conf == old(self).active_conf,
            outcome is Err ==> settled(final(self).status),
            outcome matches Ok(pair) && settled(pair.0) ==> settled(final(self).status),
            forall|s0: TunnelStatus|
                !connected(s0) && (outcome is Err || (outcome matches Ok(pair) && settled(pair.0)))
                    ==> #[trigger] tunnel_step(s0, final(self).status),
    {
        match outcome {
            Ok((status, active)) => {
                self.active_conf = active;
                self.status = status;
                let r = copy_status(&self.status);
                Ok(r)
            },
            Err(e) => {
                let mut s = idle_status(edge);
                s.message = e.clone();
                self.status = s;
                Err(e)
            },
        }
    }
}

/// The edge's answer is acceptable: it accepted, and it derived the same
/// session fingerprint as the client.
pub fn check_edge_finish(finish: &EdgeFinishResponse, client_fingerprint: &String) -> (res: Result<
    (),
    String,
>)
    ensures
        !finish.ok ==> (res matches Err(e) && e@ == "edge rejected handshake"@),
        finish.ok && finish.session_fingerprint@ != client_fingerprint@ ==> (res matches Err(e)
            && e@ == "session fingerprint mismatch (client "@ + client_fingerprint@ + " vs edge "@
            + finish.session_fingerprint@ + ")"@),
        finish.ok && finish.session_fingerprint@ == client_fingerprint@ ==> res is Ok,
{
    if !finish.ok {
        return Err(owned("edge rejected handshake"));
    }
    if finish.session_fingerprint != *client_fingerprint {
        let mut msg = owned("session fingerprint mismatch (client ");
        msg.append(client_fingerprint.as_str());
        msg.append(" vs edge ");
        msg.append(finish.session_fingerprint.as_str());
        msg.append(")");
        return Err(msg);
    }
    Ok(())
}

/// The configuration file and the "config_ready" status of a finished
/// handshake.
pub struct TunnelPlan {
    pub conf: String,
    pub status: TunnelStatus,
}

/// The routing name of a mode.
pub open spec fn routing_name(full_tunnel: bool) -> Seq<char> {
    if full_tunnel {
        "full_tunnel"@
    } else {
        "peer_only"@
    }
}

/// Turns a finished handshake into a WireGuard configuration and status:
/// the edge's answer must be acceptable; the PSK is derived from the session
/// key; routing and DNS follow the mode.
pub fn plan_tunnel(
    edge: &str,
    hello: &EdgeHello,
    finish: &EdgeFinishResponse,
    secrets: &SessionSecrets,
    wg_private_b64: &str,
    full_tunnel: bool,
    conf_path: &str,
) -> (res: Result<TunnelPlan, String>)
    ensures
        !finish.ok ==> (res matches Err(e) && e@ == "edge rejected handshake"@),
        finish.ok && finish.session_fingerprint@ != secrets.fingerprint@ ==> (res matches Err(e)
            && e@ == "session fingerprint mismatch (client "@ + secrets.fingerprint@ + " vs edge "@
            + finish.session_fingerprint@ + ")"@),
        finish.ok && finish.session_fingerprint@ == secrets.fingerprint@ ==> (res matches Ok(plan)
            && {
            let psk = wg_psk_of(secrets.session_key@);
            let dns = match finish.dns {
                Some(d) => Some(d@),
                None => if full_tunnel {
                    Some(finish.server_vpn_ip@)
                } else {
                    None
                },
            };
            &&& plan.conf@ == client_conf_text(
                wg_private_b64@,
                finish.client_vpn_ip@,
                hello.server_wg_pub_b64@,
                hello.wg_endpoint@,
                allowed_ips_for(full_tunnel, finish.server_vpn_ip@),
                dns,
                Some(psk),
            )
            &&& plan.status.state@ == "config_ready"@
            &&& plan.status.handshake matches Some(h) && reports(h, *secrets)
            &&& plan.status.edge_url@ == edge@
            &&& opt_seq(plan.status.config_path) == Some(conf_path@)
            &&& opt_seq(plan.status.client_vpn_ip) == Some(finish.client_vpn_ip@)
            &&& opt_seq(plan.status.endpoint) == Some(hello.wg_endpoint@)
            &&& plan.status.message@ == "PQ handshake OK ("@ + secrets.fingerprint@
                + "). Config written to "@ + conf_path@ + "."@
            &&& plan.status.transport@ == "handshake_only"@
            &&& plan.status.routing@ == routing_name(full_tunnel)
            &&& opt_seq(plan.status.psk_fingerprint) == Some(psk_fingerprint_of(psk))
            &&& settled(plan.status)
        }),
{
    check_edge_finish(finish, &secrets.fingerprint)?;
    let allowed = allowed_ips(full_tunnel, finish.server_vpn_ip.as_str());
    let dns = tunnel_dns(&finish.dns, full_tunnel, finish.server_vpn_ip.as_str());
    let psk = derive_wg_psk(&secrets.session_key);
    let conf = render_tunnel_conf(
        wg_private_b64,
        finish.client_vpn_ip.as_str(),
        hello.server_wg_pub_b64.as_str(),
        hello.wg_endpoint.as_str(),
        allowed.as_str(),
        match &dns {
            Some(d) => Some(d.as_str()),
            None => None,
        },
        Some(psk.as_str()),
    );
    let mut message = owned("PQ handshake OK (");
    message.append(secrets.fingerprint.as_str());
    message.append("). Config written to ");
    message.append(conf_path);
    message.append(".");
    let status = TunnelStatus {
        state: owned("config_ready"),
        handshake: Some(to_handshake_result(secrets)),
        edge_url: owned(edge),
        config_path: Some(owned(conf_path)),
        client_vpn_ip: Some(finish.client_vpn_ip.clone()),
        endpoint: Some(hello.wg_endpoint.clone()),
        message,
        transport: owned("handshake_only"),
        routing: if full_tunnel {
            owned("full_tunnel")
        } else {
            owned("peer_only")
        },
        psk_fingerprint: Some(psk_fingerprint(psk.as_str())),
    };
    Ok(TunnelPlan { conf, status })
}

/// Folds in the outcome of `wg-quick up`: on success the tunnel is up and
/// the configuration active; on failure the configuration stays ready for
/// manual import and the message says how.
pub fn after_wg_up(
    mut status: TunnelStatus,
    conf_path: String,
    wg_result: Result<(), String>,
    client_vpn_ip: &str,
    fingerprint: &str,
) -> (res: (TunnelStatus, Option<String>))
    ensures
        match wg_result {
            Ok(()) => res.0.state@ == "up"@ && res.0.transport@ == "wireguard"@ && res.0.message@
                == "Tunnel up \u{2014} traffic to "@ + client_vpn_ip@
                + " via ML-KEM-768 + WireGuard ("@ + fingerprint@ + ")"@ && res.1 == Some(
                conf_path,
            ),
            Err(e) => res.0.state == status.state && res.0.transport == status.transport
                && res.0.message@ == "PQ handshake OK and config ready at "@ + conf_path@
                + ". WireGuard interface not brought up automatically ("@ + e@
                + "). Import the config into the WireGuard app, or run: sudo wg-quick up '"@
                + conf_path@ + "'"@ && res.1 is None,
        },
        res.0.handshake == status.handshake,
        res.0.edge_url == status.edge_url,
        res.0.config_path == status.config_path,
        res.0.client_vpn_ip == status.client_vpn_ip,
        res.0.endpoint == status.endpoint,
        res.0.routing == status.routing,
        res.0.psk_fingerprint == status.psk_fingerprint,
        settled(status) && status.state@ == "config_ready"@ ==> settled(res.0),
{
    proof {
        reveal_strlit("down");
        reveal_strlit("config_ready");
        assert("down"@[0] != "config_ready"@[0]);
    }
    match wg_result {
        Ok(()) => {
            status.state = owned("up");
            status.transport = owned("wireguard");
            let mut m = owned("Tunnel up \u{2014} traffic to ");
            m.append(client_vpn_ip);
            m.append(" via ML-KEM-768 + WireGuard (");
            m.append(fingerprint);
            m.append(")");
            status.message = m;
            (status, Some(conf_path))
        },
        Err(e) => {
            let mut m = owned("PQ handshake OK and config ready at ");
            m.append(conf_path.as_str());
            m.append(". WireGuard interface not brought up automatically (");
            m.append(e.as_str());
            m.append("). Import the config into the WireGuard app, or run: sudo wg-quick up '");
            m.append(conf_path.as_str());
            m.append("'");
            status.message = m;
            (status, None)
        },
    }
}


/// The verdict of the in-process round trip once both sides hold their
/// secrets: the fingerprints must agree, then the PresharedKeys derived from
/// both session keys; on agreement, the client's report and its peer-only
/// configuration carrying that PSK.
pub fn simulated_outcome(
    client: &SessionSecrets,
    server: &SessionSecrets,
    wg_private_b64: &str,
    server_pub_b64: &str,
) -> (res: Result<(HandshakeResult, String), String>)
    ensures
        client.fingerprint@ != server.fingerprint@ ==> (res matches Err(e) && e@
            == "fingerprint mismatch in simulated exchange"@),
        client.fingerprint@ == server.fingerprint@ && wg_psk_of(client.session_key@) != wg_psk_of(
            server.session_key@,
        ) ==> (res matches Err(e) && e@ == "PSK derivation mismatch between peers"@),
        client.fingerprint@ == server.fingerprint@ && wg_psk_of(client.session_key@) == wg_psk_of(
            server.session_key@,
        ) ==> (res matches Ok((hs, conf)) && reports(hs, *client) && conf@ == client_conf_text(
            wg_private_b64@,
            "10.66.66.2"@,
            server_pub_b64@,
            "127.0.0.1:51820"@,
            "10.66.66.1/32"@,
            Some("1.1.1.1"@),
            Some(wg_psk_of(client.session_key@)),
        )),
{
    if client.fingerprint != server.fingerprint {
        return Err(owned("fingerprint mismatch in simulated exchange"));
    }
    let psk = derive_wg_psk(&client.session_key);
    let server_psk = derive_wg_psk(&server.session_key);
    if psk != server_psk {
        return Err(owned("PSK derivation mismatch between peers"));
    }
    let conf = render_tunnel_conf(
        wg_private_b64,
        "10.66.66.2",
        server_pub_b64,
        "127.0.0.1:51820",
        "10.66.66.1/32",
        Some("1.1.1.1"),
        Some(psk.as_str()),
    );
    Ok((to_handshake_result(client), conf))
}

/// In-process round trip used by tests (no HTTP, no wg-quick): a client and
/// an edge session, each with a freshly generated WireGuard key pair, run
/// the networked handshake against each other, and [`simulated_outcome`]
/// judges it. It fails only where ML-KEM decapsulation does not recover the
/// secret the client encapsulated, which ML-KEM's correctness rules out for
/// all but a negligible fraction of keys and messages.
pub fn simulate_peer_exchange() -> (res: Result<(HandshakeResult, String), String>)
    ensures
        res matches Err(e) ==> (e@ == "fingerprint mismatch in simulated exchange"@ || e@
            == "PSK derivation mismatch between peers"@),
        res is Err ==> exists|dk: Seq<u8>, m: Seq<u8>|
            dk.len() == MLKEM768_DK_BYTES && m.len() == 32 && !#[trigger] mlkem768_recovers(dk, m),
        res matches Ok((hs, conf)) ==> {
            &&& standard_parameters(hs)
            &&& hs.kem_ciphertext_bytes == MLKEM768_CT_BYTES
            &&& hs.kem_encaps_key_bytes == MLKEM768_EK_BYTES
            &&& hs.session_fingerprint@.len() == 16
            &&& forall|i: int|
                0 <= i < 16 ==> is_lower_hex_digit(#[trigger] hs.session_fingerprint@[i])
            &&& exists|wc: Seq<u8>, ws: Seq<u8>, dk: Seq<u8>, m: Seq<u8>, cs: Seq<u8>, sx: Seq<u8>|
                #![trigger hybrid_client_key(dk, m, cs, sx), client_conf_text(base64_encode(wc), "10.66.66.2"@, base64_encode(x25519_public_key(ws)), "127.0.0.1:51820"@, "10.66.66.1/32"@, Some("1.1.1.1"@), Some(wg_psk_of(hybrid_client_key(dk, m, cs, sx))))]
                {
                    let client_key = hybrid_client_key(dk, m, cs, sx);
                    let edge_key = hybrid_edge_key(dk, m, cs, sx);
                    &&& wc.len() == 32 && ws.len() == 32 && dk.len() == MLKEM768_DK_BYTES
                    &&& m.len() == 32 && cs.len() == 32 && sx.len() == 32
                    &&& hs.session_fingerprint@ == fingerprint_of(client_key)
                    &&& fingerprint_of(edge_key) == fingerprint_of(client_key)
                    &&& wg_psk_of(edge_key) == wg_psk_of(client_key)
                    &&& conf@ == client_conf_text(
                        base64_encode(wc),
                        "10.66.66.2"@,
                        base64_encode(x25519_public_key(ws)),
                        "127.0.0.1:51820"@,
                        "10.66.66.1/32"@,
                        Some("1.1.1.1"@),
                        Some(wg_psk_of(client_key)),
                    )
                }
        },
{
    let wg = generate_wg_keypair();
    let server_wg = generate_wg_keypair();
    let ghost cs = choose|secret: Seq<u8>| #[trigger] keypair_of(wg, secret);
    let ghost ss_ = choose|secret: Seq<u8>| #[trigger] keypair_of(server_wg, secret);
    let session = server_start(
        owned("test-hs"),
        server_wg.public_b64.clone(),
        owned("127.0.0.1:51820"),
    );
    let hello = session.hello();
    proof {
        session.lemma_advertised_keys();
    }
    let (secrets, req) = client_finish(&hello, wg.public_b64.as_str())?;
    let ghost (ct, ss, cx, m) = choose|ct: Seq<u8>, ss: Seq<u8>, cx: Seq<u8>, m: Seq<u8>|
        ct.len() == MLKEM768_CT_BYTES && ss.len() == 32 && cx.len() == 32 && m.len() == 32
            && #[trigger] mlkem768_encaps(base64_decode(hello.kem_public_key_b64@)->Some_0, m) == (
            ct,
            ss,
        ) && #[trigger] client_exchange(hello, wg.public_b64@, ct, ss, cx, secrets, req);
    let ghost dk = session.decapsulation_key();
    proof {
        if mlkem768_recovers(dk, m) {
            assert(mlkem768_encaps(dk.subrange(1152, 2336), m) == (ct, ss));
            lemma_client_and_server_agree(session, hello, wg.public_b64@, ct, ss, cx, secrets, req);
        }
    }
    let server_secrets = session.finish(&req)?;
    let ghost sx = session.x25519_secret();
    proof {
        assert(base64_decode(hello.kem_public_key_b64@)->Some_0 == dk.subrange(1152, 2336));
        assert(base64_decode(hello.server_x25519_pub_b64@)->Some_0 == x25519_public_key(sx));
        assert(secrets.session_key@ == hybrid_client_key(dk, m, cx, sx));
        assert(session.session_key_for(ct, x25519_public_key(cx)) == hybrid_edge_key(dk, m, cx, sx));
        assert(server_secrets.session_key@ == hybrid_edge_key(dk, m, cx, sx));
    }
    let res = simulated_outcome(
        &secrets,
        &server_secrets,
        wg.private_b64.as_str(),
        server_wg.public_b64.as_str(),
    );
    if let Ok((hs, conf)) = &res {
        proof {
            lemma_fingerprint_shape(secrets.session_key@);
        }
        assert(client_conf_text(
            base64_encode(cs),
            "10.66.66.2"@,
            base64_encode(x25519_public_key(ss_)),
            "127.0.0.1:51820"@,
            "10.66.66.1/32"@,
            Some("1.1.1.1"@),
            Some(wg_psk_of(secrets.session_key@)),
        ) == conf@);
    }
    res
}

/// `s` with every backslash and double quote escaped by a backslash, as
/// AppleScript string literals need.
pub open spec fn applescript_escaped(s: Seq<char>) -> Seq<char>
    decreases s.len(),
{
    if s.len() == 0 {
        Seq::empty()
    } else {
        applescript_escaped(s.drop_last()) + if s.last() == '\\' {
            seq!['\\', '\\']
        } else if s.last() == '"' {
            seq!['\\', '"']
        } else {
            seq![s.last()]
        }
    }
}

/// See [`applescript_escaped`].
pub fn escape_for_applescript(s: &str) -> (e: String)
    ensures
        e@ == applescript_escaped(s@),
{
    let v = crate::text::chars_of(s);
    let mut e = String::new();
    let mut i: usize = 0;
    while i < v.len()
        invariant
            i <= v@.len(),
            v@ == s@,
            e@ == applescript_escaped(s@.take(i as int)),
        decreases v@.len() - i,
    {
        let c = v[i];
        if c == '\\' {
            crate::text::push_char(&mut e, '\\');
            crate::text::push_char(&mut e, '\\');
        } else if c == '"' {
            crate::text::push_char(&mut e, '\\');
            crate::text::push_char(&mut e, '"');
        } else {
            crate::text::push_char(&mut e, c);
        }
        assert(s@.take(i + 1).drop_last() =~= s@.take(i as int));
        i = i + 1;
    }
    assert(s@.take(v@.len() as int) =~= s@);
    e
}

/// The shell command that runs `wg-quick` with the resolved tools first on
/// the search path.
pub open spec fn admin_shell_command(
    path_prefix: Seq<char>,
    bash: Seq<char>,
    wg_quick: Seq<char>,
    action: Seq<char>,
    iface_conf: Seq<char>,
) -> Seq<char> {
    "PATH="@ + path_prefix + ":/usr/bin:/bin:/usr/sbin:/sbin '"@ + bash + "' '"@ + wg_quick
        + "' "@ + action + " '"@ + iface_conf + "'"@
}

/// The verb the admin prompt uses for an action.
pub open spec fn action_verb(action: Seq<char>) -> Seq<char> {
    if action == "up"@ {
        "start"@
    } else {
        "stop"@
    }
}

/// The AppleScript that runs the command through the native admin-password
/// dialog.
pub open spec fn admin_script_text(
    path_prefix: Seq<char>,
    bash: Seq<char>,
    wg_quick: Seq<char>,
    action: Seq<char>,
    iface_conf: Seq<char>,
) -> Seq<char> {
    "do shell script \""@ + applescript_escaped(
        admin_shell_command(path_prefix, bash, wg_quick, action, iface_conf),
    ) + "\" with administrator privileges with prompt \"CryptiQ Personal wants to "@
        + action_verb(action) + " the quantum-safe tunnel.\""@
}

/// See [`admin_script_text`].
pub fn admin_script(
    path_prefix: &str,
    bash: &str,
    wg_quick: &str,
    action: &str,
    iface_conf: &str,
) -> (script: String)
    ensures
        script@ == admin_script_text(path_prefix@, bash@, wg_quick@, action@, iface_conf@),
{
    let mut cmd = owned("PATH=");
    cmd.append(path_prefix);
    cmd.append(":/usr/bin:/bin:/usr/sbin:/sbin '");
    cmd.append(bash);
    cmd.append("' '");
    cmd.append(wg_quick);
    cmd.append("' ");
    cmd.append(action);
    cmd.append(" '");
    cmd.append(iface_conf);
    cmd.append("'");
    let escaped = escape_for_applescript(cmd.as_str());
    let verb = if owned(action) == owned("up") {
        "start"
    } else {
        "stop"
    };
    let mut script = owned("do shell script \"");
    script.append(escaped.as_str());
    script.append("\" with administrator privileges with prompt \"CryptiQ Personal wants to ");
    script.append(verb);
    script.append(" the quantum-safe tunnel.\"");
    assert(cmd@ =~= admin_shell_command(path_prefix@, bash@, wg_quick@, action@, iface_conf@));
    script
}

/// The error of a failed escalation, from the (trimmed) standard error of
/// `osascript`: a declined password dialog gets its own explanation.
pub fn escalation_failure(stderr: &str) -> (msg: String)
    ensures
        contains(stderr@, "User canceled"@) || contains(stderr@, "-128"@) ==> msg@
            == "Administrator authorization was declined \u{2014} tunnel config is ready but the interface was not brought up."@,
        !(contains(stderr@, "User canceled"@) || contains(stderr@, "-128"@)) ==> msg@ == stderr@,
{
    if str_contains(stderr, "User canceled") || str_contains(stderr, "-128") {
        owned("Administrator authorization was declined \u{2014} tunnel config is ready but the interface was not brought up.")
    } else {
        owned(stderr)
    }
}

/// The search path for a direct run: the resolved tool directory first.
pub fn search_path(path_prefix: &str, system_path: &str) -> (p: String)
    ensures
        p@ == path_prefix@ + ":"@ + system_path@,
{
    let mut p = owned(path_prefix);
    p.append(":");
    p.append(system_path);
    p
}

} // verus!
