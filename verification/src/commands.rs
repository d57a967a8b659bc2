//! Decisions behind the app's commands: where a remediation request goes,
//! and which edge and routing a connection uses given the request and the
//! stored settings.

use crate::text::{owned, starts_with};
use vstd::prelude::*;

verus! {

/// Which migration handles a finding.
#[derive(Clone, Copy, Debug, PartialEq, Eq, Structural)]
pub enum RemediationRoute {
    /// Generate a replacement SSH key and manage the SSH config block.
    SshMigration,
    /// Force full-tunnel routing on untrusted Wi-Fi.
    WifiPolicy,
    /// Move Git commit signing to an SSH key.
    GitSigning,
    /// Nothing the app can do itself.
    Manual,
}

/// SSH key findings migrate (not the aggregate known-hosts finding nor the
/// "no keys" one); the Wi-Fi and Git signing findings have their own
/// migrations; everything else is manual.
pub open spec fn route_of(finding_id: Seq<char>) -> RemediationRoute {
    if starts_with(finding_id, "ssh:"@) && finding_id != "ssh:known_hosts"@ && finding_id
        != "ssh:none"@ {
        RemediationRoute::SshMigration
    } else if finding_id == "net:wifi"@ {
        RemediationRoute::WifiPolicy
    } else if finding_id == "git:signing"@ {
        RemediationRoute::GitSigning
    } else {
        RemediationRoute::Manual
    }
}

/// See [`route_of`].
pub fn remediation_route(finding_id: &str) -> (r: RemediationRoute)
    ensures
        r == route_of(finding_id@),
{
    let id = owned(finding_id);
    let v = crate::text::chars_of(finding_id);
    let prefix = crate::text::chars_of("ssh:");
    if crate::text::match_at(v.as_slice(), prefix.as_slice(), 0) && id != owned("ssh:known_hosts")
        && id != owned("ssh:none") {
        RemediationRoute::SshMigration
    } else if id == owned("net:wifi") {
        RemediationRoute::WifiPolicy
    } else if id == owned("git:signing") {
        RemediationRoute::GitSigning
    } else {
        RemediationRoute::Manual
    }
}

/// The error a manual finding gets when the app is asked to fix it.
pub fn manual_remediation_error() -> (e: String)
    ensures
        e@ == "This finding requires manual remediation"@,
{
    owned("This finding requires manual remediation")
}

/// The edge and routing of a connection.
pub struct ConnectOptions {
    pub edge_url: Option<String>,
    pub full_tunnel: bool,
}

/// A stored flag is set when it reads "1" or "true".
pub open spec fn flag_set(stored: Option<Seq<char>>) -> bool {
    match stored {
        Some(v) => v == "1"@ || v == "true"@,
        None => false,
    }
}

/// The view of an optional string.
pub open spec fn opt_seq(v: Option<String>) -> Option<Seq<char>> {
    match v {
        Some(s) => Some(s@),
        None => None,
    }
}

/// The requested edge, else the stored one; the requested routing, else
/// the stored one; and full-tunnel routing regardless whenever the Wi-Fi
/// policy for untrusted networks is on.
pub fn connect_options(
    edge_url: Option<String>,
    full_tunnel: Option<bool>,
    stored_edge_url: Option<String>,
    stored_full_tunnel: Option<String>,
    stored_force_untrusted: Option<String>,
) -> (o: ConnectOptions)
    ensures
        opt_seq(o.edge_url) == match edge_url {
            Some(u) => Some(u@),
            None => opt_seq(stored_edge_url),
        },
        o.full_tunnel == (opt_seq(stored_force_untrusted) == Some("1"@) || match full_tunnel {
            Some(f) => f,
            None => flag_set(opt_seq(stored_full_tunnel)),
        }),
        full_tunnel is None && opt_seq(stored_force_untrusted) != Some("1"@) ==> (o.full_tunnel <==> (
        opt_seq(stored_full_tunnel) == Some("1"@) || opt_seq(stored_full_tunnel) == Some("true"@))),
        opt_seq(stored_force_untrusted) != Some("1"@) ==> (full_tunnel matches Some(f)
            ==> o.full_tunnel == f),
        opt_seq(stored_force_untrusted) == Some("1"@) ==> o.full_tunnel,
{
    let url = match edge_url {
        Some(u) => Some(u),
        None => stored_edge_url,
    };
    let mut full = match full_tunnel {
        Some(f) => f,
        None => match stored_full_tunnel {
            Some(v) => v == owned("1") || v == owned("true"),
            None => false,
        },
    };
    let forced = match stored_force_untrusted {
        Some(v) => v == owned("1"),
        None => false,
    };
    if forced {
        full = true;
    }
    ConnectOptions { edge_url: url, full_tunnel: full }
}

/// Routing from the settings: a stored full-tunnel flag is set exactly when
/// it reads "1" or "true" (the store's two forms), and unset when absent;
/// a connection asked for without routing and without the untrusted-Wi-Fi
/// policy is full-tunnel exactly then; the policy forces full tunnel over
/// any request.
pub proof fn lemma_routing_rules(
    full_tunnel: Option<bool>,
    stored_full_tunnel: Option<Seq<char>>,
    stored_force_untrusted: Option<Seq<char>>,
)
    ensures
        flag_set(stored_full_tunnel) <==> (stored_full_tunnel == Some("1"@) || stored_full_tunnel
            == Some("true"@)),
        stored_full_tunnel is None ==> !flag_set(stored_full_tunnel),
        ({
            let routed = stored_force_untrusted == Some("1"@) || match full_tunnel {
                Some(f) => f,
                None => flag_set(stored_full_tunnel),
            };
            &&& stored_force_untrusted == Some("1"@) ==> routed
            &&& full_tunnel is None && stored_force_untrusted != Some("1"@) ==> (routed <==> (
                stored_full_tunnel == Some("1"@) || stored_full_tunnel == Some("true"@)))
        }),
{
}

} // verus!
