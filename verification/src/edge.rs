//! The edge peer's state: half-open handshakes, the registry of WireGuard
//! peers with their VPN addresses and PresharedKeys, and the server-side
//! WireGuard configuration rendered from it.

use crate::pqc::{
    client_exchange, mlkem768_recovers, kem_key_usable, fingerprint, fingerprint_of, lemma_client_and_server_agree, wg_psk_of,
    derive_wg_psk, server_start, ClientFinishRequest, EdgeFinishResponse, EdgeHello, FinishFault,
    ServerSession,
};
use crate::primitives::{base64_decode, mlkem768_encaps, mlkem768_shared_key, random_handshake_id, MLKEM768_CT_BYTES};
use crate::text::{is_lower_hex_digit, decimal, decimal_string, has_prefix, joined, lemma_decimal_injective, owned};
use vstd::prelude::*;

verus! {

/// A registered peer: its VPN address and the PresharedKey of its last handshake.
pub struct PeerEntry {
    pub vpn_ip: String,
    pub psk_b64: String,
}

/// The VPN address of host number `host` in the edge's /24.
pub open spec fn vpn_ip_of(host: nat) -> Seq<char> {
    "10.66.66."@ + decimal(host)
}

/// Distinct hosts have distinct VPN addresses.
pub proof fn lemma_vpn_ip_injective(a: nat, b: nat)
    requires
        vpn_ip_of(a) == vpn_ip_of(b),
    ensures
        a == b,
{
    let p = "10.66.66."@;
    assert(vpn_ip_of(a).subrange(p.len() as int, vpn_ip_of(a).len() as int) =~= decimal(a));
    assert(vpn_ip_of(b).subrange(p.len() as int, vpn_ip_of(b).len() as int) =~= decimal(b));
    lemma_decimal_injective(a, b);
}

/// A loaded peer as (public key, VPN address, PresharedKey).
pub open spec fn peer_view(p: (String, PeerEntry)) -> (Seq<char>, Seq<char>, Seq<char>) {
    (p.0@, p.1.vpn_ip@, p.1.psk_b64@)
}

/// Loaded peers as (public key, VPN address, PresharedKey).
pub open spec fn peer_views(peers: Seq<(String, PeerEntry)>) -> Seq<(Seq<char>, Seq<char>, Seq<char>)> {
    peers.map_values(|p: (String, PeerEntry)| peer_view(p))
}

/// No key occurs twice.
pub open spec fn keys_distinct(entries: Seq<(Seq<char>, Seq<char>, Seq<char>)>) -> bool {
    forall|i: int, j: int|
        0 <= i < entries.len() && 0 <= j < entries.len() && i != j ==> #[trigger] entries[i].0
            != #[trigger] entries[j].0
}

/// The address and PresharedKey of the last entry for `key`, as inserting
/// the entries one by one into a map leaves them.
pub open spec fn last_lookup(
    entries: Seq<(Seq<char>, Seq<char>, Seq<char>)>,
    key: Seq<char>,
) -> Option<(Seq<char>, Seq<char>)>
    decreases entries.len(),
{
    if entries.len() == 0 {
        None
    } else if entries.last().0 == key {
        Some((entries.last().1, entries.last().2))
    } else {
        last_lookup(entries.drop_last(), key)
    }
}

/// Highest host number the edge hands out.
pub const MAX_HOST: u8 = 250;

/// Registered peers keyed by WireGuard public key, in registration order.
pub struct PeerRegistry {
    next_host: u8,
    peers: Vec<(String, PeerEntry)>,
}

impl PeerRegistry {
    /// The last host number handed out (1 while none has been).
    pub closed spec fn host_counter(self) -> u8 {
        self.next_host
    }

    /// The peers as (public key, VPN address, PresharedKey), in order.
    pub closed spec fn entries(self) -> Seq<(Seq<char>, Seq<char>, Seq<char>)> {
        peer_views(self.peers@)
    }

    /// The host counter is at least 1 (the edge's own address is never
    /// handed out), and no public key is registered twice.
    pub open spec fn wf(self) -> bool {
        &&& self.host_counter() >= 1
        &&& forall|i: int, j: int|
            0 <= i < self.entries().len() && 0 <= j < self.entries().len() && i != j
                ==> #[trigger] self.entries()[i].0 != #[trigger] self.entries()[j].0
    }

    /// `key` is registered.
    pub open spec fn contains_key(self, key: Seq<char>) -> bool {
        exists|i: int| 0 <= i < self.entries().len() && #[trigger] self.entries()[i].0 == key
    }

    /// Where `key` stands in the registry.
    pub open spec fn index_of(self, key: Seq<char>) -> int {
        choose|i: int| 0 <= i < self.entries().len() && #[trigger] self.entries()[i].0 == key
    }

    /// The VPN address and PresharedKey registered for `key`.
    pub open spec fn lookup(self, key: Seq<char>) -> Option<(Seq<char>, Seq<char>)> {
        if self.contains_key(key) {
            let e = self.entries()[self.index_of(key)];
            Some((e.1, e.2))
        } else {
            None
        }
    }

    /// The address a handshake from `key` is given: the one it already has,
    /// else the next free host, else none when the pool is exhausted.
    pub open spec fn assigned_ip(self, key: Seq<char>) -> Option<Seq<char>> {
        match self.lookup(key) {
            Some((ip, _)) => Some(ip),
            None => if self.host_counter() >= MAX_HOST {
                None
            } else {
                Some(vpn_ip_of((self.host_counter() + 1) as nat))
            },
        }
    }

    /// Every address is a host of the pool handed out so far (2 up to the
    /// counter), and no two peers share an address.
    pub open spec fn addresses_valid(self) -> bool {
        &&& self.host_counter() >= 1
        &&& forall|i: int|
            #![trigger self.entries()[i]]
            0 <= i < self.entries().len() ==> exists|n: nat|
                2 <= n <= self.host_counter() && #[trigger] vpn_ip_of(n) == self.entries()[i].1
        &&& forall|i: int, j: int|
            0 <= i < self.entries().len() && 0 <= j < self.entries().len() && i != j
                ==> #[trigger] self.entries()[i].1 != #[trigger] self.entries()[j].1
    }

    /// An empty registry: no peers, no host handed out.
    pub fn new() -> (r: PeerRegistry)
        ensures
            r.wf(),
            r.entries() == Seq::<(Seq<char>, Seq<char>, Seq<char>)>::empty(),
            r.host_counter() == 1,
            r.addresses_valid(),
    {
        let r = PeerRegistry { next_host: 1, peers: Vec::new() };
        assert(r.entries() =~= Seq::<(Seq<char>, Seq<char>, Seq<char>)>::empty());
        r
    }

    /// Registers a loaded peer under `key`, replacing any entry already held
    /// for it (as a map insert does).
    fn upsert(&mut self, key: String, entry: PeerEntry)
        requires
            old(self).wf(),
        ensures
            final(self).wf(),
            final(self).host_counter() == old(self).host_counter(),
            !old(self).contains_key(key@) ==> final(self).entries() == old(self).entries().push(
                (key@, entry.vpn_ip@, entry.psk_b64@),
            ),
            final(self).lookup(key@) == Some((entry.vpn_ip@, entry.psk_b64@)),
            forall|k: Seq<char>| k != key@ ==> #[trigger] final(self).lookup(k) == old(self).lookup(k),
    {
        let ghost kv = key@;
        match self.position(&key) {
            Some(i) => {
                let ghost before = self.entries();
                self.peers.set(i, (key, entry));
                assert(self.entries() =~= before.update(i as int, self.entries()[i as int]));
                assert(self.entries()[i as int].0 == kv);
                assert(self.index_of(kv) == i) by {
                    let j = self.index_of(kv);
                    assert(self.entries()[j].0 == kv);
                }
            },
            None => {
                let ghost before = self.entries();
                self.peers.push((key, entry));
                assert(self.entries() =~= before.push(self.entries().last()));
                assert forall|i: int, j: int|
                    0 <= i < self.entries().len() && 0 <= j < self.entries().len() && i != j
                        implies #[trigger] self.entries()[i].0 != #[trigger] self.entries()[j].0 by {
                    if i == before.len() as int {
                        assert(before[j].0 != kv);
                    } else if j == before.len() as int {
                        assert(before[i].0 != kv);
                    }
                }
                let ghost last = before.len() as int;
                assert(self.entries()[last].0 == kv);
                assert(self.index_of(kv) == last) by {
                    let j = self.index_of(kv);
                    if j != last {
                        assert(before[j].0 == kv);
                    }
                }
            },
        }
        assert forall|k: Seq<char>| k != kv implies #[trigger] self.lookup(k) == old(self).lookup(k) by {
            if old(self).contains_key(k) {
                let j = old(self).index_of(k);
                assert(self.entries()[j].0 == k);
                let j2 = self.index_of(k);
                assert(old(self).entries()[j2].0 == k);
            } else if self.contains_key(k) {
                let j2 = self.index_of(k);
                assert(old(self).entries()[j2].0 == k);
            }
        }
    }

    /// The registry loaded from persisted state: the host counter (never
    /// below 1) and the peers. Peers with distinct keys, as a persisted map
    /// holds them, are kept as given; a repeated key keeps its last entry.
    pub fn from_persisted(next_host: u8, peers: Vec<(String, PeerEntry)>) -> (r: PeerRegistry)
        ensures
            r.wf(),
            r.host_counter() == if next_host >= 1 {
                next_host
            } else {
                1
            },
            keys_distinct(peer_views(peers@)) ==> r.entries() == peer_views(peers@),
            forall|k: Seq<char>| #[trigger] r.lookup(k) == last_lookup(peer_views(peers@), k),
    {
        let ghost input = peer_views(peers@);
        let counter: u8 = if next_host >= 1 {
            next_host
        } else {
            1
        };
        let mut r = PeerRegistry { next_host: counter, peers: Vec::new() };
        assert(r.entries() =~= input.take(0));
        let n = peers.len();
        let mut rest = peers;
        let mut i: usize = 0;
        while rest.len() > 0
            invariant
                r.wf(),
                r.host_counter() == counter,
                input == peer_views(peers@),
                i + rest@.len() == input.len(),
                input.len() == n,
                forall|j: int| 0 <= j < rest@.len() ==> #[trigger] peer_view(rest@[j]) == input[i + j],
                keys_distinct(input) ==> r.entries() == input.take(i as int),
                forall|k: Seq<char>| #[trigger] r.lookup(k) == last_lookup(input.take(i as int), k),
            decreases rest@.len(),
        {
            assert(peer_view(rest@[0]) == input[i as int]);
            let (key, entry) = rest.remove(0);
            let ghost idx = i as int;
            assert(peer_view((key, entry)) == input[idx]);
            proof {
                if keys_distinct(input) {
                    assert(!r.contains_key(key@)) by {
                        if r.contains_key(key@) {
                            let j = r.index_of(key@);
                            assert(r.entries()[j] == input[j]);
                            assert(input[j].0 == key@);
                            assert(input[idx].0 == key@);
                        }
                    }
                }
            }
            let ghost kv = key@;
            r.upsert(key, entry);
            proof {
                if keys_distinct(input) {
                    assert(r.entries() =~= input.take(idx + 1));
                }
                assert(input.take(idx + 1).drop_last() =~= input.take(idx));
                assert(input.take(idx + 1).last() == input[idx]);
                assert forall|k: Seq<char>| #[trigger] r.lookup(k) == last_lookup(
                    input.take(idx + 1),
                    k,
                ) by {
                    if k != kv {
                        assert(last_lookup(input.take(idx + 1), k) == last_lookup(input.take(idx), k));
                    }
                }
            }
            i = i + 1;
        }
        assert(input.take(n as int) =~= input);
        r
    }

    /// What is persisted of the registry: the host counter and a copy of
    /// the peers, in order. No key occurs twice in it.
    pub fn snapshot(&self) -> (s: (u8, Vec<(String, PeerEntry)>))
        requires
            self.wf(),
        ensures
            s.0 == self.host_counter(),
            peer_views(s.1@) == self.entries(),
            keys_distinct(peer_views(s.1@)),
    {
        let mut out: Vec<(String, PeerEntry)> = Vec::new();
        let mut i: usize = 0;
        while i < self.peers.len()
            invariant
                i <= self.peers@.len(),
                peer_views(out@) == self.entries().take(i as int),
            decreases self.peers@.len() - i,
        {
            let (k, e) = (&self.peers[i].0, &self.peers[i].1);
            let copy = (k.clone(), PeerEntry { vpn_ip: e.vpn_ip.clone(), psk_b64: e.psk_b64.clone() });
            let ghost before = out@;
            out.push(copy);
            assert(peer_views(out@) =~= peer_views(before).push(peer_view(copy)));
            assert(self.entries().take(i + 1) =~= self.entries().take(i as int).push(
                self.entries()[i as int],
            ));
            i = i + 1;
        }
        assert(self.entries().take(self.peers@.len() as int) =~= self.entries());
        (self.next_host, out)
    }

    /// Number of registered peers.
    pub fn len(&self) -> (n: usize)
        ensures
            n == self.entries().len(),
    {
        self.peers.len()
    }

    /// The last host number handed out.
    pub fn next_host(&self) -> (n: u8)
        ensures
            n == self.host_counter(),
    {
        self.next_host
    }

    /// The `i`-th peer.
    pub fn entry(&self, i: usize) -> (e: (&String, &PeerEntry))
        requires
            i < self.entries().len(),
        ensures
            e.0@ == self.entries()[i as int].0,
            e.1.vpn_ip@ == self.entries()[i as int].1,
            e.1.psk_b64@ == self.entries()[i as int].2,
    {
        (&self.peers[i].0, &self.peers[i].1)
    }

    fn position(&self, key: &String) -> (pos: Option<usize>)
        requires
            self.wf(),
        ensures
            match pos {
                Some(i) => self.contains_key(key@) && i == self.index_of(key@),
                None => !self.contains_key(key@),
            },
    {
        let mut i: usize = 0;
        while i < self.peers.len()
            invariant
                i <= self.peers@.len(),
                self.wf(),
                forall|j: int| 0 <= j < i ==> #[trigger] self.entries()[j].0 != key@,
            decreases self.peers@.len() - i,
        {
            if self.peers[i].0 == *key {
                assert(self.entries()[i as int].0 == key@);
                return Some(i);
            }
            i = i + 1;
        }
        None
    }

    /// Registers `key` with PresharedKey `psk_b64`: a known key keeps its
    /// address and takes the new PSK; a new key takes the next host; a new key
    /// is refused once the pool is exhausted.
    pub fn register(&mut self, key: &String, psk_b64: String) -> (res: Result<String, String>)
        requires
            old(self).wf(),
        ensures
            final(self).wf(),
            match old(self).assigned_ip(key@) {
                Some(ip) => res matches Ok(r) && r@ == ip && final(self).lookup(key@) == Some(
                    (ip, psk_b64@),
                ) && forall|k: Seq<char>|
                    k != key@ ==> #[trigger] final(self).lookup(k) == old(self).lookup(k),
                None => res matches Err(e) && e@ == "peer pool exhausted"@ && final(self).entries()
                    == old(self).entries() && final(self).host_counter() == old(self).host_counter(),
            },
            old(self).lookup(key@) is Some ==> final(self).host_counter() == old(self).host_counter()
                && final(self).entries() == old(self).entries().update(
                old(self).index_of(key@),
                (key@, old(self).lookup(key@)->Some_0.0, psk_b64@),
            ),
            old(self).assigned_ip(key@) is Some && old(self).lookup(key@) is None ==> final(self).host_counter() == old(self).host_counter() + 1 && final(self).entries() == old(self).entries().push((key@, vpn_ip_of((old(self).host_counter() + 1) as nat), psk_b64@)),
            old(self).addresses_valid() ==> final(self).addresses_valid(),
    {
        match self.position(key) {
            Some(i) => {
                let ip = self.peers[i].1.vpn_ip.clone();
                let ghost before = self.entries();
                self.peers.set(i, (key.clone(), PeerEntry { vpn_ip: ip.clone(), psk_b64 }));
                assert(self.entries() =~= before.update(i as int, (key@, ip@, self.entries()[i as int].2)));
                assert(self.entries()[i as int].0 == key@);
                assert(self.contains_key(key@));
                assert(self.index_of(key@) == i) by {
                    let j = self.index_of(key@);
                    assert(self.entries()[j].0 == key@);
                }
                assert forall|k: Seq<char>| k != key@ implies #[trigger] self.lookup(k) == old(self).lookup(k) by {
                    if old(self).contains_key(k) {
                        let j = old(self).index_of(k);
                        assert(self.entries()[j].0 == k);
                        let j2 = self.index_of(k);
                        assert(old(self).entries()[j2].0 == k);
                    } else {
                        if self.contains_key(k) {
                            let j2 = self.index_of(k);
                            assert(old(self).entries()[j2].0 == k);
                        }
                    }
                }
                Ok(ip)
            },
            None => {
                if self.next_host >= MAX_HOST {
                    return Err(owned("peer pool exhausted"));
                }
                self.next_host = self.next_host + 1;
                let host = decimal_string(self.next_host as u64);
                let ip = joined("10.66.66.", host.as_str());
                let ghost before = self.entries();
                self.peers.push((key.clone(), PeerEntry { vpn_ip: ip.clone(), psk_b64 }));
                assert(self.entries() =~= before.push((key@, ip@, self.entries().last().2)));
                let ghost last = (self.entries().len() - 1) as int;
                assert(self.entries()[last].0 == key@);
                assert(self.contains_key(key@));
                assert(self.index_of(key@) == last) by {
                    let j = self.index_of(key@);
                    if j != last {
                        assert(old(self).entries()[j].0 == key@);
                    }
                }
                assert forall|k: Seq<char>| k != key@ implies #[trigger] self.lookup(k) == old(self).lookup(k) by {
                    if old(self).contains_key(k) {
                        let j = old(self).index_of(k);
                        assert(self.entries()[j].0 == k);
                        let j2 = self.index_of(k);
                        assert(old(self).entries()[j2].0 == k);
                    } else {
                        if self.contains_key(k) {
                            let j2 = self.index_of(k);
                            assert(old(self).entries()[j2].0 == k);
                        }
                    }
                }
                proof { if old(self).addresses_valid() {
                    let ghost fresh = self.next_host as nat;
                    assert(vpn_ip_of(fresh) == ip@);
                    assert forall|i: int, j: int|
                        0 <= i < self.entries().len() && 0 <= j < self.entries().len() && i != j
                            implies #[trigger] self.entries()[i].1 != #[trigger] self.entries()[j].1 by {
                        if i == last || j == last {
                            let o = if i == last { j } else { i };
                            let n = choose|n: nat|
                                2 <= n <= old(self).host_counter() && #[trigger] vpn_ip_of(n)
                                    == old(self).entries()[o].1;
                            if self.entries()[o].1 == ip@ {
                                lemma_vpn_ip_injective(n, fresh);
                            }
                        }
                    }
                    assert forall|i: int|
                        #![trigger self.entries()[i]]
                        0 <= i < self.entries().len() implies exists|n: nat|
                        2 <= n <= self.host_counter() && #[trigger] vpn_ip_of(n)
                            == self.entries()[i].1 by {
                        if i == last {
                            assert(vpn_ip_of(fresh) == self.entries()[i].1);
                        } else {
                            let n = choose|n: nat|
                                2 <= n <= old(self).host_counter() && #[trigger] vpn_ip_of(n)
                                    == old(self).entries()[i].1;
                            assert(vpn_ip_of(n) == self.entries()[i].1);
                        }
                    }
                } }
                Ok(ip)
            },
        }
    }
}


/// Peers and their PresharedKeys persist across restarts: a registry saved
/// as its `snapshot` (`saved_host`, `saved_peers`) and loaded back with
/// `from_persisted` holds the same peers in the same order, answers every
/// lookup as before, and hands out the same next address.
pub proof fn lemma_restart_keeps_registry(
    before: PeerRegistry,
    saved_host: u8,
    saved_peers: Seq<(String, PeerEntry)>,
    after: PeerRegistry,
)
    requires
        before.wf(),
        saved_host == before.host_counter(),
        peer_views(saved_peers) == before.entries(),
        keys_distinct(peer_views(saved_peers)),
        after.host_counter() == if saved_host >= 1 {
            saved_host
        } else {
            1
        },
        keys_distinct(peer_views(saved_peers)) ==> after.entries() == peer_views(saved_peers),
    ensures
        after.entries() == before.entries(),
        after.host_counter() == before.host_counter(),
        forall|k: Seq<char>| #[trigger] after.lookup(k) == before.lookup(k),
        forall|k: Seq<char>| #[trigger] after.assigned_ip(k) == before.assigned_ip(k),
{
    assert forall|k: Seq<char>| #[trigger] after.lookup(k) == before.lookup(k) by {
        if before.contains_key(k) {
            let i = before.index_of(k);
            assert(after.entries()[i].0 == k);
        }
        if after.contains_key(k) {
            let i = after.index_of(k);
            assert(before.entries()[i].0 == k);
        }
    }
    assert forall|k: Seq<char>| #[trigger] after.assigned_ip(k) == before.assigned_ip(k) by {
        assert(after.lookup(k) == before.lookup(k));
    }
}


/// The masquerading rules that let full-tunnel clients reach the internet
/// through the edge's outbound interface. The FORWARD rules are inserted at
/// the top so that a catch-all REJECT shipped by cloud images cannot
/// shadow them.
pub open spec fn nat_rules(iface: Option<Seq<char>>) -> Seq<char> {
    match iface {
        Some(i) => "PostUp = iptables -I FORWARD 1 -i %i -j ACCEPT; iptables -I FORWARD 1 -o %i -j ACCEPT; iptables -t nat -A POSTROUTING -o "@
            + i + " -j MASQUERADE\nPostDown = iptables -D FORWARD -i %i -j ACCEPT; iptables -D FORWARD -o %i -j ACCEPT; iptables -t nat -D POSTROUTING -o "@
            + i + " -j MASQUERADE\n"@,
        None => Seq::empty(),
    }
}

/// One `[Peer]` section per registered peer, in order.
pub open spec fn peer_sections(entries: Seq<(Seq<char>, Seq<char>, Seq<char>)>) -> Seq<char>
    decreases entries.len(),
{
    if entries.len() == 0 {
        Seq::empty()
    } else {
        let e = entries.last();
        peer_sections(entries.drop_last()) + "[Peer]\nPublicKey = "@ + e.0 + "\nPresharedKey = "@
            + e.2 + "\nAllowedIPs = "@ + e.1 + "/32\n\n"@
    }
}

/// The edge's WireGuard configuration.
pub open spec fn server_conf(
    conf_path: Seq<char>,
    private_b64: Seq<char>,
    nat_iface: Option<Seq<char>>,
    entries: Seq<(Seq<char>, Seq<char>, Seq<char>)>,
) -> Seq<char> {
    "# CryptiQ edge WireGuard config \u{2014} regenerated on each peer join\n# Bring up with: sudo wg-quick up "@
        + conf_path + "\n[Interface]\nPrivateKey = "@ + private_b64
        + "\nAddress = 10.66.66.1/24\nListenPort = 51820\n"@ + nat_rules(nat_iface) + "\n"@
        + peer_sections(entries)
}

/// The view of an optional string.
pub open spec fn opt_string_view(v: Option<String>) -> Option<Seq<char>> {
    match v {
        Some(s) => Some(s@),
        None => None,
    }
}

/// HTTP status of a refused request.
pub const BAD_REQUEST: u16 = 400;

/// HTTP status when no address is left to hand out.
pub const SERVICE_UNAVAILABLE: u16 = 503;

/// The edge's message for a refused finish request.
pub open spec fn fault_message_ok(fault: FinishFault, msg: Seq<char>) -> bool {
    match fault {
        FinishFault::BadCiphertext => has_prefix(msg, "bad ciphertext: "@),
        FinishFault::CiphertextLength => msg == "invalid ciphertext length"@,
        FinishFault::BadClientKey => has_prefix(msg, "bad client x25519: "@),
        FinishFault::ClientKeyLength => msg == "client x25519 must be 32 bytes"@,
    }
}

/// Everything the edge holds between requests.
pub struct EdgeState {
    server_wg_private_b64: String,
    server_wg_public_b64: String,
    wg_endpoint: String,
    dns: String,
    nat_iface: Option<String>,
    pending: Vec<ServerSession>,
    registry: PeerRegistry,
}

impl EdgeState {
    /// Pending sessions are consistent and have distinct ids; the registry
    /// holds each key once.
    pub closed spec fn wf(self) -> bool {
        &&& self.registry.wf()
        &&& forall|i: int| 0 <= i < self.pending@.len() ==> #[trigger] self.pending@[i].wf()
        &&& forall|i: int, j: int|
            0 <= i < self.pending@.len() && 0 <= j < self.pending@.len() && i != j
                ==> #[trigger] self.pending@[i].id_view() != #[trigger] self.pending@[j].id_view()
    }

    /// The half-open handshakes.
    pub closed spec fn pending_sessions(self) -> Seq<ServerSession> {
        self.pending@
    }

    /// The registered peers.
    pub closed spec fn peers(self) -> PeerRegistry {
        self.registry
    }

    /// The edge's WireGuard public key.
    pub closed spec fn wg_public_view(self) -> Seq<char> {
        self.server_wg_public_b64@
    }

    /// The edge's WireGuard private key.
    pub closed spec fn wg_private_view(self) -> Seq<char> {
        self.server_wg_private_b64@
    }

    /// The advertised WireGuard endpoint.
    pub closed spec fn endpoint_view(self) -> Seq<char> {
        self.wg_endpoint@
    }

    /// The resolver pushed to clients.
    pub closed spec fn dns_view(self) -> Seq<char> {
        self.dns@
    }

    /// The outbound interface for NAT, if any.
    pub closed spec fn nat_view(self) -> Option<Seq<char>> {
        opt_string_view(self.nat_iface)
    }

    /// The pending session with id `id`, if any.
    pub open spec fn pending_index(self, id: Seq<char>) -> Option<int> {
        if exists|i: int|
            0 <= i < self.pending_sessions().len() && #[trigger] self.pending_sessions()[i].id_view()
                == id {
            Some(
                choose|i: int|
                    0 <= i < self.pending_sessions().len()
                        && #[trigger] self.pending_sessions()[i].id_view() == id,
            )
        } else {
            None
        }
    }

    /// An edge with the given keys and settings, no pending handshake, and
    /// the given peers.
    pub fn new(
        server_wg_private_b64: String,
        server_wg_public_b64: String,
        wg_endpoint: String,
        dns: String,
        nat_iface: Option<String>,
        registry: PeerRegistry,
    ) -> (e: EdgeState)
        requires
            registry.wf(),
        ensures
            e.wf(),
            e.pending_sessions().len() == 0,
            e.peers() == registry,
            e.wg_private_view() == server_wg_private_b64@,
            e.wg_public_view() == server_wg_public_b64@,
            e.endpoint_view() == wg_endpoint@,
            e.dns_view() == dns@,
            e.nat_view() == opt_string_view(nat_iface),
    {
        EdgeState {
            server_wg_private_b64,
            server_wg_public_b64,
            wg_endpoint,
            dns,
            nat_iface,
            pending: Vec::new(),
            registry,
        }
    }

    /// The registered peers.
    pub fn registry(&self) -> (r: &PeerRegistry)
        ensures
            *r == self.peers(),
            self.wf() ==> r.wf(),
    {
        &self.registry
    }

    /// The resolver pushed to clients.
    pub fn dns(&self) -> (d: &str)
        ensures
            d@ == self.dns_view(),
    {
        self.dns.as_str()
    }

    /// A well-formed edge holds a well-formed registry and well-formed
    /// pending sessions with distinct ids.
    pub proof fn lemma_wf_parts(self)
        requires
            self.wf(),
        ensures
            self.peers().wf(),
            forall|i: int| 0 <= i < self.pending_sessions().len() ==> #[trigger] self.pending_sessions()[i].wf(),
            forall|i: int, j: int|
                0 <= i < self.pending_sessions().len() && 0 <= j < self.pending_sessions().len() && i
                    != j ==> #[trigger] self.pending_sessions()[i].id_view()
                    != #[trigger] self.pending_sessions()[j].id_view(),
    {
    }

    /// With distinct ids, a pending session is found at its own position.
    proof fn lemma_pending_index_of(self, j: int)
        requires
            self.wf(),
            0 <= j < self.pending_sessions().len(),
        ensures
            self.pending_index(self.pending_sessions()[j].id_view()) == Some(j),
    {
        let id = self.pending_sessions()[j].id_view();
        assert(self.pending_sessions()[j].id_view() == id);
        let c = choose|k: int|
            0 <= k < self.pending_sessions().len() && #[trigger] self.pending_sessions()[k].id_view()
                == id;
        assert(c == j);
    }

    fn pending_position(&self, id: &String) -> (pos: Option<usize>)
        requires
            self.wf(),
        ensures
            match pos {
                Some(i) => self.pending_index(id@) == Some(i as int),
                None => self.pending_index(id@) is None,
            },
    {
        let mut i: usize = 0;
        while i < self.pending.len()
            invariant
                i <= self.pending@.len(),
                self.wf(),
                forall|j: int| 0 <= j < i ==> #[trigger] self.pending@[j].id_view() != id@,
            decreases self.pending@.len() - i,
        {
            if *self.pending[i].handshake_id() == *id {
                assert(self.pending_sessions()[i as int].id_view() == id@);
                let ghost c = choose|j: int|
                    0 <= j < self.pending_sessions().len()
                        && #[trigger] self.pending_sessions()[j].id_view() == id@;
                assert(c == i);
                return Some(i);
            }
            i = i + 1;
        }
        None
    }

    /// Opens a handshake: fresh ML-KEM and X25519 keys under a random id,
    /// kept until the client finishes. An id already pending is replaced.
    pub fn start_handshake(&mut self) -> (hello: EdgeHello)
        requires
            old(self).wf(),
        ensures
            final(self).wf(),
            final(self).peers() == old(self).peers(),
            final(self).pending_index(hello.handshake_id@) matches Some(i) && {
                let s = final(self).pending_sessions()[i];
                &&& hello.kem_public_key_b64@ == s.kem_public_key_b64()
                &&& hello.server_x25519_pub_b64@ == s.x25519_public_b64()
            },
            hello.server_wg_pub_b64@ == old(self).wg_public_view(),
            hello.wg_endpoint@ == old(self).endpoint_view(),
            kem_key_usable(hello),
            base64_decode(hello.server_x25519_pub_b64@) matches Some(k) && k.len() == 32,
            final(self).wg_private_view() == old(self).wg_private_view(),
            final(self).wg_public_view() == old(self).wg_public_view(),
            final(self).endpoint_view() == old(self).endpoint_view(),
            final(self).dns_view() == old(self).dns_view(),
            final(self).nat_view() == old(self).nat_view(),
            forall|id: Seq<char>|
                id != hello.handshake_id@ ==> #[trigger] final(self).pending_index(id) == old(
                    self,
                ).pending_index(id),
            forall|j: int|
                0 <= j < old(self).pending_sessions().len() && old(self).pending_sessions()[j].id_view()
                    != hello.handshake_id@ ==> #[trigger] final(self).pending_sessions()[j] == old(
                    self,
                ).pending_sessions()[j],
    {
        let id = random_handshake_id();
        let session = server_start(
            id.clone(),
            self.server_wg_public_b64.clone(),
            self.wg_endpoint.clone(),
        );
        let hello = session.hello();
        match self.pending_position(&id) {
            Some(i) => {
                self.pending.set(i, session);
                assert(self.pending_sessions()[i as int].id_view() == id@);
                assert forall|a: int, b: int|
                    0 <= a < self.pending@.len() && 0 <= b < self.pending@.len() && a != b
                        implies #[trigger] self.pending@[a].id_view()
                        != #[trigger] self.pending@[b].id_view() by {
                    assert(old(self).pending@[a].id_view() != old(self).pending@[b].id_view());
                }
                let ghost c = choose|j: int|
                    0 <= j < self.pending_sessions().len()
                        && #[trigger] self.pending_sessions()[j].id_view() == id@;
                assert(c == i);
            },
            None => {
                self.pending.push(session);
                let ghost last = self.pending@.len() - 1;
                assert(self.pending_sessions()[last].id_view() == id@);
                assert forall|a: int, b: int|
                    0 <= a < self.pending@.len() && 0 <= b < self.pending@.len() && a != b
                        implies #[trigger] self.pending@[a].id_view()
                        != #[trigger] self.pending@[b].id_view() by {
                    if a != last && b != last {
                        assert(old(self).pending@[a].id_view() != old(self).pending@[b].id_view());
                    } else if a == last {
                        assert(old(self).pending_sessions()[b].id_view() != id@);
                    } else {
                        assert(old(self).pending_sessions()[a].id_view() != id@);
                    }
                }
                let ghost c = choose|j: int|
                    0 <= j < self.pending_sessions().len()
                        && #[trigger] self.pending_sessions()[j].id_view() == id@;
                assert(c == last);
            },
        }
        proof {
            assert forall|id: Seq<char>| id != hello.handshake_id@ implies #[trigger] self.pending_index(
                id,
            ) == old(self).pending_index(id) by {
                match old(self).pending_index(id) {
                    Some(j) => {
                        assert(old(self).pending_sessions()[j].id_view() == id);
                        assert(self.pending_sessions()[j] == old(self).pending_sessions()[j]);
                        self.lemma_pending_index_of(j);
                    },
                    None => {
                        if self.pending_index(id) is Some {
                            let k = self.pending_index(id)->Some_0;
                            assert(self.pending_sessions()[k].id_view() == id);
                            assert(old(self).pending_sessions()[k].id_view() == id);
                        }
                    },
                }
            }
        }
        hello
    }

    /// Completes a handshake: the pending session is consumed whatever the
    /// outcome; a request the session refuses is answered 400; the client's
    /// WireGuard key is registered (503 when the address pool is exhausted)
    /// with the PresharedKey derived from the new session; the reply carries
    /// the session fingerprint, the client's address, the edge's address and
    /// the resolver.
    pub fn finish_handshake(&mut self, req: &ClientFinishRequest) -> (res: Result<
        EdgeFinishResponse,
        (u16, String),
    >)
        requires
            old(self).wf(),
        ensures
            final(self).wf(),
            match old(self).pending_index(req.handshake_id@) {
                None => res matches Err((code, msg)) && code == BAD_REQUEST && msg@
                    == "unknown handshake_id"@ && *final(self) == *old(self),
                Some(i) => {
                    let session = old(self).pending_sessions()[i];
                    &&& final(self).pending_sessions() == old(self).pending_sessions().remove(i)
                    &&& match session.finish_spec(*req) {
                        Err(fault) => res matches Err((code, msg)) && code == BAD_REQUEST
                            && fault_message_ok(fault, msg@) && final(self).peers() == old(
                            self).peers(),
                        Ok(key) => match old(self).peers().assigned_ip(req.client_wg_pub_b64@) {
                            None => res matches Err((code, msg)) && code == SERVICE_UNAVAILABLE
                                && msg@ == "peer pool exhausted"@ && final(self).peers().entries()
                                == old(self).peers().entries() && final(self).peers().host_counter()
                                == old(self).peers().host_counter(),
                            Some(ip) => {
                                let c = req.client_wg_pub_b64@;
                                let before = old(self).peers();
                                let after = final(self).peers();
                                &&& res matches Ok(r) && r.ok && r.session_fingerprint@
                                    == fingerprint_of(key) && r.session_fingerprint@.len() == 16
                                    && (forall|j: int|
                                    0 <= j < 16 ==> is_lower_hex_digit(
                                        #[trigger] r.session_fingerprint@[j],
                                    )) && r.client_vpn_ip@ == ip
                                    && r.server_vpn_ip@ == "10.66.66.1"@ && opt_string_view(r.dns)
                                    == Some(old(self).dns_view())
                                &&& after.lookup(c) == Some((ip, wg_psk_of(key)))
                                &&& forall|k: Seq<char>|
                                    k != c ==> #[trigger] after.lookup(k) == before.lookup(k)
                                &&& before.lookup(c) is Some ==> after.host_counter()
                                    == before.host_counter() && after.entries()
                                    == before.entries().update(
                                    before.index_of(c),
                                    (c, ip, wg_psk_of(key)),
                                )
                                &&& before.lookup(c) is None ==> after.host_counter()
                                    == before.host_counter() + 1 && after.entries()
                                    == before.entries().push((c, ip, wg_psk_of(key)))
                            },
                        },
                    }
                },
            },
            final(self).wg_private_view() == old(self).wg_private_view(),
            final(self).wg_public_view() == old(self).wg_public_view(),
            final(self).endpoint_view() == old(self).endpoint_view(),
            final(self).dns_view() == old(self).dns_view(),
            final(self).nat_view() == old(self).nat_view(),
            old(self).peers().addresses_valid() ==> final(self).peers().addresses_valid(),
            final(self).pending_index(req.handshake_id@) is None,
    {
        let i = match self.pending_position(&req.handshake_id) {
            Some(i) => i,
            None => return Err((BAD_REQUEST, owned("unknown handshake_id"))),
        };
        let session = self.pending.remove(i);
        assert(session.wf());
        proof {
            if self.pending_index(req.handshake_id@) is Some {
                let k = self.pending_index(req.handshake_id@)->Some_0;
                let ok = if k < i { k } else { k + 1 };
                assert(self.pending_sessions()[k] == old(self).pending_sessions()[ok]);
                assert(old(self).pending_sessions()[i as int].id_view() == req.handshake_id@);
                assert(old(self).pending@[ok].id_view() != old(self).pending@[i as int].id_view());
            }
            assert forall|a: int, b: int|
                0 <= a < self.pending@.len() && 0 <= b < self.pending@.len() && a != b
                    implies #[trigger] self.pending@[a].id_view()
                    != #[trigger] self.pending@[b].id_view() by {
                let oa = if a < i { a } else { a + 1 };
                let ob = if b < i { b } else { b + 1 };
                assert(old(self).pending@[oa].id_view() != old(self).pending@[ob].id_view());
            }
            assert forall|a: int| 0 <= a < self.pending@.len() implies #[trigger] self.pending@[
                a].wf() by {
                let oa = if a < i { a } else { a + 1 };
                assert(old(self).pending@[oa].wf());
            }
        }
        let (_ct, session_key) = match session.derive_session(req) {
            Ok(derived) => derived,
            Err((FinishFault::BadCiphertext, detail)) => return Err(
                (BAD_REQUEST, joined("bad ciphertext: ", detail.as_str())),
            ),
            Err((FinishFault::CiphertextLength, _)) => return Err(
                (BAD_REQUEST, owned("invalid ciphertext length")),
            ),
            Err((FinishFault::BadClientKey, detail)) => return Err(
                (BAD_REQUEST, joined("bad client x25519: ", detail.as_str())),
            ),
            Err((FinishFault::ClientKeyLength, _)) => return Err(
                (BAD_REQUEST, owned("client x25519 must be 32 bytes")),
            ),
        };
        let fp = fingerprint(&session_key);
        let psk = derive_wg_psk(&session_key);
        let client_ip = match self.registry.register(&req.client_wg_pub_b64, psk) {
            Ok(ip) => ip,
            Err(e) => return Err((SERVICE_UNAVAILABLE, e)),
        };
        Ok(
            EdgeFinishResponse {
                ok: true,
                session_fingerprint: fp,
                client_vpn_ip: client_ip,
                server_vpn_ip: owned("10.66.66.1"),
                dns: Some(self.dns.clone()),
            },
        )
    }

    /// The edge's WireGuard configuration for the current peers, as written
    /// to `conf_path`.
    pub fn server_conf_text(&self, conf_path: &str) -> (text: String)
        ensures
            text@ == server_conf(
                conf_path@,
                self.wg_private_view(),
                self.nat_view(),
                self.peers().entries(),
            ),
    {
        let mut s = String::new();
        s.append("# CryptiQ edge WireGuard config \u{2014} regenerated on each peer join\n# Bring up with: sudo wg-quick up ");
        s.append(conf_path);
        s.append("\n[Interface]\nPrivateKey = ");
        s.append(self.server_wg_private_b64.as_str());
        s.append("\nAddress = 10.66.66.1/24\nListenPort = 51820\n");
        match &self.nat_iface {
            Some(iface) => {
                s.append("PostUp = iptables -I FORWARD 1 -i %i -j ACCEPT; iptables -I FORWARD 1 -o %i -j ACCEPT; iptables -t nat -A POSTROUTING -o ");
                s.append(iface.as_str());
                s.append(" -j MASQUERADE\nPostDown = iptables -D FORWARD -i %i -j ACCEPT; iptables -D FORWARD -o %i -j ACCEPT; iptables -t nat -D POSTROUTING -o ");
                s.append(iface.as_str());
                s.append(" -j MASQUERADE\n");
            },
            None => {},
        }
        s.append("\n");
        let ghost head = s@;
        assert(head =~= "# CryptiQ edge WireGuard config \u{2014} regenerated on each peer join\n# Bring up with: sudo wg-quick up "@
            + conf_path@ + "\n[Interface]\nPrivateKey = "@ + self.wg_private_view()
            + "\nAddress = 10.66.66.1/24\nListenPort = 51820\n"@ + nat_rules(self.nat_view()) + "\n"@);
        let n = self.registry.len();
        let mut i: usize = 0;
        while i < n
            invariant
                i <= n,
                n == self.peers().entries().len(),
                s@ == head + peer_sections(self.peers().entries().take(i as int)),
            decreases n - i,
        {
            let (key, entry) = self.registry.entry(i);
            s.append("[Peer]\nPublicKey = ");
            s.append(key.as_str());
            s.append("\nPresharedKey = ");
            s.append(entry.psk_b64.as_str());
            s.append("\nAllowedIPs = ");
            s.append(entry.vpn_ip.as_str());
            s.append("/32\n\n");
            let ghost es = self.peers().entries();
            assert(es.take(i + 1).drop_last() =~= es.take(i as int));
            assert(es.take(i + 1).last() == es[i as int]);
            assert(s@ =~= head + peer_sections(es.take(i + 1)));
            i = i + 1;
        }
        assert(self.peers().entries().take(n as int) =~= self.peers().entries());
        s
    }
}


/// The edge and a client agree: when a client runs its half of the
/// handshake against the hello of a pending session (as `client_finish`
/// does, encapsulating some message `m` to the advertised key) and sends its
/// request, the session accepts it with the client's own session key, so
/// the edge answers with the client's fingerprint and registers the client's
/// WireGuard PresharedKey (see `finish_handshake`). The one condition is
/// ML-KEM's correctness on the session's key and `m`.
pub proof fn lemma_edge_and_client_agree(
    edge: EdgeState,
    hello: EdgeHello,
    client_wg_pub_b64: Seq<char>,
    ct: Seq<u8>,
    ss_pq: Seq<u8>,
    client_secret: Seq<u8>,
    m: Seq<u8>,
    secrets: crate::pqc::SessionSecrets,
    req: ClientFinishRequest,
)
    requires
        edge.wf(),
        edge.pending_index(hello.handshake_id@) matches Some(i)
            && hello.kem_public_key_b64@ == edge.pending_sessions()[i].kem_public_key_b64()
            && hello.server_x25519_pub_b64@ == edge.pending_sessions()[i].x25519_public_b64()
            && mlkem768_recovers(edge.pending_sessions()[i].decapsulation_key(), m),
        mlkem768_encaps(base64_decode(hello.kem_public_key_b64@)->Some_0, m) == (ct, ss_pq),
        ct.len() == MLKEM768_CT_BYTES,
        client_secret.len() == 32,
        client_exchange(hello, client_wg_pub_b64, ct, ss_pq, client_secret, secrets, req),
    ensures
        edge.pending_index(req.handshake_id@) matches Some(i) && {
            let key = edge.pending_sessions()[i].finish_spec(req);
            &&& key == Ok::<Seq<u8>, FinishFault>(secrets.session_key@)
            &&& fingerprint_of(key->Ok_0) == secrets.fingerprint@
            &&& wg_psk_of(key->Ok_0) == wg_psk_of(secrets.session_key@)
        },
{
    let i = edge.pending_index(hello.handshake_id@)->Some_0;
    let session = edge.pending_sessions()[i];
    assert(session.wf());
    session.lemma_advertised_keys();
    let dk = session.decapsulation_key();
    assert(base64_decode(hello.kem_public_key_b64@)->Some_0 == dk.subrange(1152, 2336));
    assert(mlkem768_encaps(dk.subrange(1152, 2336), m) == (ct, ss_pq));
    assert(mlkem768_recovers(dk, m));
    assert(mlkem768_shared_key(dk, ct) == ss_pq);
    lemma_client_and_server_agree(
        session,
        hello,
        client_wg_pub_b64,
        ct,
        ss_pq,
        client_secret,
        secrets,
        req,
    );
}

} // verus!
