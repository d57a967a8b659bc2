//! Hybrid post-quantum handshake: ML-KEM-768 (FIPS 203) + X25519.
//!
//! Two modes:
//! - `hybrid_handshake()`: both sides in-process (tests / offline demo)
//! - `client_finish` / `ServerSession`: networked handshake with an edge node
//!
//! The derived session key does two jobs: it authenticates the WireGuard peer
//! exchange, and (via `derive_wg_psk`) it becomes the WireGuard PresharedKey
//! that both sides mix into the data-plane key schedule.

use crate::primitives::{
    base64_decode, base64_decode_text, base64_encode, base64_encode_bytes, clock_start,
    decode_error_text, elapsed_nanos, mlkem768_decapsulate, mlkem768_encapsulate,
    mlkem768_encaps, mlkem768_generate, mlkem768_shared_key, sha256, sha256_digest, x25519_diffie_hellman,
    x25519_public, x25519_public_key, x25519_random_secret, x25519_shared, MLKEM768_CT_BYTES,
    MLKEM768_DK_BYTES, MLKEM768_EK_BYTES,
};
use crate::text::{
    append_bytes, bytes_equal, has_prefix, hex, hex_prefix, is_lower_hex_digit, joined,
    lemma_hex_shape, owned, to_array32,
};
use vstd::prelude::*;
use vstd::utf8::encode_utf8;

verus! {

/// What the Technical tab shows of a completed handshake.
pub struct HandshakeResult {
    pub kem: String,
    pub classical: String,
    pub kdf: String,
    pub session_fingerprint: String,
    pub kem_ciphertext_preview: String,
    pub kem_ciphertext_bytes: usize,
    pub kem_encaps_key_bytes: usize,
    pub kem_shared_secret_bytes: usize,
    pub classical_shared_secret_bytes: usize,
    pub kdf_label: String,
    /// How long the handshake took, in nanoseconds.
    pub duration_ns: u64,
}

/// Raw material both peers share after a successful handshake.
pub struct SessionSecrets {
    pub session_key: [u8; 32],
    pub fingerprint: String,
    pub kem_ciphertext_preview: String,
    pub kem_ciphertext_bytes: usize,
    pub kem_encaps_key_bytes: usize,
    /// How long the handshake took, in nanoseconds.
    pub duration_ns: u64,
}

/// The edge's opening message.
pub struct EdgeHello {
    pub handshake_id: String,
    pub kem_public_key_b64: String,
    pub server_x25519_pub_b64: String,
    pub server_wg_pub_b64: String,
    pub wg_endpoint: String,
}

/// The client's answer to an [`EdgeHello`].
pub struct ClientFinishRequest {
    pub handshake_id: String,
    pub kem_ciphertext_b64: String,
    pub client_x25519_pub_b64: String,
    pub client_wg_pub_b64: String,
}

/// The edge's reply once it has registered the client.
pub struct EdgeFinishResponse {
    pub ok: bool,
    pub session_fingerprint: String,
    pub client_vpn_ip: String,
    pub server_vpn_ip: String,
    pub dns: Option<String>,
}

/// Domain label of the hybrid key derivation.
pub open spec fn hybrid_label() -> Seq<u8> {
    encode_utf8("cryptiq-personal-hybrid-v1"@)
}

/// Domain label that separates the WireGuard PSK from the session key.
pub open spec fn psk_label() -> Seq<u8> {
    encode_utf8("cryptiq-wg-psk-v1"@)
}

/// The session key: SHA-256 over the label, the ML-KEM secret and the X25519 secret.
pub open spec fn session_key_of(ss_pq: Seq<u8>, ss_x25519: Seq<u8>) -> Seq<u8> {
    sha256_digest(hybrid_label() + ss_pq + ss_x25519)
}

/// The displayed fingerprint of a session key: hex of its first eight bytes.
pub open spec fn fingerprint_of(key: Seq<u8>) -> Seq<char> {
    hex(key.take(8))
}

/// The WireGuard PresharedKey derived from a session key.
pub open spec fn wg_psk_of(key: Seq<u8>) -> Seq<char> {
    base64_encode(sha256_digest(psk_label() + key))
}

/// The displayed fingerprint of a PSK: hex of the first four digest bytes of its text.
pub open spec fn psk_fingerprint_of(psk_b64: Seq<char>) -> Seq<char> {
    hex(sha256_digest(encode_utf8(psk_b64)).take(4))
}

/// Base64 of the first 36 bytes (at most) of a ciphertext.
pub open spec fn preview_of(ct: Seq<u8>) -> Seq<char> {
    base64_encode(ct.take(if ct.len() < 36 { ct.len() as int } else { 36 }))
}

/// `s` carries the session key `key`, derived over ciphertext `ct`.
pub open spec fn secrets_match(s: SessionSecrets, key: Seq<u8>, ct: Seq<u8>, ek_bytes: nat) -> bool {
    &&& s.session_key@ == key
    &&& s.fingerprint@ == fingerprint_of(key)
    &&& s.kem_ciphertext_preview@ == preview_of(ct)
    &&& s.kem_ciphertext_bytes == ct.len()
    &&& s.kem_encaps_key_bytes == ek_bytes
}

/// ML-KEM-768 decapsulation with `dk` recovers the shared key that
/// encapsulating message `m` to the encapsulation key inside `dk` produced
/// (ML-KEM's correctness, which holds for all but a negligible fraction of
/// keys and messages).
pub open spec fn mlkem768_recovers(dk: Seq<u8>, m: Seq<u8>) -> bool {
    let (ct, ss) = mlkem768_encaps(dk.subrange(1152, 2336), m);
    mlkem768_shared_key(dk, ct) == ss
}

/// The session key of a client that encapsulates message `m` to the
/// encapsulation key inside `dk` and runs X25519 with secret `cs` against
/// the edge's secret `sx`.
pub open spec fn hybrid_client_key(dk: Seq<u8>, m: Seq<u8>, cs: Seq<u8>, sx: Seq<u8>) -> Seq<u8> {
    session_key_of(
        mlkem768_encaps(dk.subrange(1152, 2336), m).1,
        x25519_shared(cs, x25519_public_key(sx)),
    )
}

/// The session key the edge holding `dk` and X25519 secret `sx` derives from
/// that client's ciphertext and X25519 public key.
pub open spec fn hybrid_edge_key(dk: Seq<u8>, m: Seq<u8>, cs: Seq<u8>, sx: Seq<u8>) -> Seq<u8> {
    session_key_of(
        mlkem768_shared_key(dk, mlkem768_encaps(dk.subrange(1152, 2336), m).0),
        x25519_shared(sx, x25519_public_key(cs)),
    )
}

/// The fixed algorithm names and sizes of every handshake report.
pub open spec fn standard_parameters(r: HandshakeResult) -> bool {
    &&& r.kem@ == "ML-KEM-768"@
    &&& r.classical@ == "X25519"@
    &&& r.kdf@ == "SHA-256 hybrid"@
    &&& r.kem_shared_secret_bytes == 32
    &&& r.classical_shared_secret_bytes == 32
    &&& r.kdf_label@ == "cryptiq-personal-hybrid-v1"@
}

/// `r` reports the session described by `s`.
pub open spec fn reports(r: HandshakeResult, s: SessionSecrets) -> bool {
    &&& standard_parameters(r)
    &&& r.session_fingerprint@ == s.fingerprint@
    &&& r.kem_ciphertext_preview@ == s.kem_ciphertext_preview@
    &&& r.kem_ciphertext_bytes == s.kem_ciphertext_bytes
    &&& r.kem_encaps_key_bytes == s.kem_encaps_key_bytes
    &&& r.duration_ns == s.duration_ns
}

/// A fingerprint is sixteen lowercase hex digits.
pub proof fn lemma_fingerprint_shape(key: Seq<u8>)
    requires
        key.len() >= 8,
    ensures
        fingerprint_of(key).len() == 16,
        forall|i: int| 0 <= i < 16 ==> is_lower_hex_digit(#[trigger] fingerprint_of(key)[i]),
{
    lemma_hex_shape(key.take(8));
}

fn hybrid_kdf(ss_pq: &[u8], ss_x25519: &[u8]) -> (key: [u8; 32])
    ensures
        key@ == session_key_of(ss_pq@, ss_x25519@),
{
    let mut input: Vec<u8> = Vec::new();
    append_bytes(&mut input, "cryptiq-personal-hybrid-v1".as_bytes());
    append_bytes(&mut input, ss_pq);
    append_bytes(&mut input, ss_x25519);
    sha256(input.as_slice())
}

/// Short hex fingerprint of a session key (its first eight bytes).
pub fn fingerprint(key: &[u8; 32]) -> (fp: String)
    ensures
        fp@ == fingerprint_of(key@),
        fp@.len() == 16,
        forall|i: int| 0 <= i < 16 ==> is_lower_hex_digit(#[trigger] fp@[i]),
{
    proof {
        lemma_hex_shape(key@.take(8));
    }
    hex_prefix(key.as_slice(), 8)
}

/// Derive the WireGuard PresharedKey from the hybrid session key.
///
/// WireGuard mixes the PSK into its own key schedule, so an attacker must
/// break ML-KEM-768 in addition to Curve25519 to decrypt the data plane.
/// Domain-separated from the session key by its own label.
pub fn derive_wg_psk(session_key: &[u8; 32]) -> (psk: String)
    ensures
        psk@ == wg_psk_of(session_key@),
        psk@.len() == 44,
        base64_decode(psk@) == Some(sha256_digest(psk_label() + session_key@)),
        sha256_digest(psk_label() + session_key@).len() == 32,
{
    let mut input: Vec<u8> = Vec::new();
    append_bytes(&mut input, "cryptiq-wg-psk-v1".as_bytes());
    append_bytes(&mut input, session_key.as_slice());
    let digest = sha256(input.as_slice());
    assert(input@ == psk_label() + session_key@);
    base64_encode_bytes(digest.as_slice())
}

/// Short hex fingerprint of a derived PSK (for display, never the key itself).
pub fn psk_fingerprint(psk_b64: &str) -> (fp: String)
    ensures
        fp@ == psk_fingerprint_of(psk_b64@),
        fp@.len() == 8,
        forall|i: int| 0 <= i < 8 ==> is_lower_hex_digit(#[trigger] fp@[i]),
{
    let digest = sha256(psk_b64.as_bytes());
    proof {
        lemma_hex_shape(digest@.take(4));
    }
    hex_prefix(digest.as_slice(), 4)
}

fn ciphertext_preview(ct: &[u8]) -> (p: String)
    requires
        ct@.len() <= usize::MAX / 2,
    ensures
        p@ == preview_of(ct@),
{
    let n: usize = if ct.len() < 36 {
        ct.len()
    } else {
        36
    };
    let head = &ct[0..n];
    assert(head@ =~= ct@.take(n as int));
    base64_encode_bytes(head)
}

fn make_secrets(key: [u8; 32], ct: &[u8], ek_bytes: usize, duration_ns: u64) -> (s: SessionSecrets)
    requires
        ct@.len() <= usize::MAX / 2,
    ensures
        secrets_match(s, key@, ct@, ek_bytes as nat),
        s.duration_ns == duration_ns,
{
    SessionSecrets {
        session_key: key,
        fingerprint: fingerprint(&key),
        kem_ciphertext_preview: ciphertext_preview(ct),
        kem_ciphertext_bytes: ct.len(),
        kem_encaps_key_bytes: ek_bytes,
        duration_ns,
    }
}

/// The report of a session, as the Technical tab shows it.
pub fn to_handshake_result(s: &SessionSecrets) -> (r: HandshakeResult)
    ensures
        reports(r, *s),
{
    HandshakeResult {
        kem: owned("ML-KEM-768"),
        classical: owned("X25519"),
        kdf: owned("SHA-256 hybrid"),
        session_fingerprint: s.fingerprint.clone(),
        kem_ciphertext_preview: s.kem_ciphertext_preview.clone(),
        kem_ciphertext_bytes: s.kem_ciphertext_bytes,
        kem_encaps_key_bytes: s.kem_encaps_key_bytes,
        kem_shared_secret_bytes: 32,
        classical_shared_secret_bytes: 32,
        kdf_label: owned("cryptiq-personal-hybrid-v1"),
        duration_ns: s.duration_ns,
    }
}

/// The verdict of an in-process handshake once both sides hold their
/// secrets: a mismatch on either layer is an error, agreement yields the
/// report of the session keyed by both shared secrets.
pub fn local_handshake_outcome(
    ct: &[u8],
    kem_client: &[u8],
    kem_server: &[u8],
    dh_client: &[u8; 32],
    dh_server: &[u8; 32],
    ek_bytes: usize,
    duration_ns: u64,
) -> (res: Result<HandshakeResult, String>)
    requires
        ct@.len() <= usize::MAX / 2,
    ensures
        kem_client@ != kem_server@ ==> (res matches Err(e) && e@
            == "ML-KEM shared secret mismatch"@),
        kem_client@ == kem_server@ && dh_client@ != dh_server@ ==> (res matches Err(e) && e@
            == "X25519 shared secret mismatch"@),
        kem_client@ == kem_server@ && dh_client@ == dh_server@ ==> (res matches Ok(r) && {
            &&& standard_parameters(r)
            &&& r.session_fingerprint@ == fingerprint_of(session_key_of(kem_client@, dh_client@))
            &&& r.kem_ciphertext_preview@ == preview_of(ct@)
            &&& r.kem_ciphertext_bytes == ct@.len()
            &&& r.kem_encaps_key_bytes == ek_bytes
            &&& r.duration_ns == duration_ns
            &&& r.session_fingerprint@.len() == 16
            &&& forall|i: int|
                0 <= i < 16 ==> is_lower_hex_digit(#[trigger] r.session_fingerprint@[i])
        }),
{
    if !bytes_equal(kem_client, kem_server) {
        return Err(owned("ML-KEM shared secret mismatch"));
    }
    if !bytes_equal(dh_client.as_slice(), dh_server.as_slice()) {
        return Err(owned("X25519 shared secret mismatch"));
    }
    let session_key = hybrid_kdf(kem_client, dh_client.as_slice());
    let secrets = make_secrets(session_key, ct, ek_bytes, duration_ns);
    proof {
        lemma_fingerprint_shape(session_key@);
    }
    Ok(to_handshake_result(&secrets))
}

/// Offline both-sides handshake (kept for tests and the Technical tab demo
/// path). It fails only when ML-KEM decapsulation recovers a different shared
/// secret than encapsulation produced; X25519 agreement always holds.
pub fn hybrid_handshake() -> (res: Result<HandshakeResult, String>)
    ensures
        res matches Err(e) ==> e@ == "ML-KEM shared secret mismatch"@,
        res is Err ==> exists|dk: Seq<u8>, m: Seq<u8>|
            dk.len() == MLKEM768_DK_BYTES && m.len() == 32 && !#[trigger] mlkem768_recovers(dk, m),
        res matches Ok(r) ==> {
            &&& standard_parameters(r)
            &&& r.kem_ciphertext_bytes == MLKEM768_CT_BYTES
            &&& r.kem_encaps_key_bytes == MLKEM768_EK_BYTES
            &&& r.session_fingerprint@.len() == 16
            &&& forall|i: int|
                0 <= i < 16 ==> is_lower_hex_digit(#[trigger] r.session_fingerprint@[i])
            &&& exists|dk: Seq<u8>, m: Seq<u8>, cs: Seq<u8>, sx: Seq<u8>|
                #![trigger hybrid_client_key(dk, m, cs, sx)]
                {
                    let ct = mlkem768_encaps(dk.subrange(1152, 2336), m).0;
                    &&& dk.len() == MLKEM768_DK_BYTES
                    &&& m.len() == 32
                    &&& cs.len() == 32
                    &&& sx.len() == 32
                    &&& ct.len() == MLKEM768_CT_BYTES
                    &&& mlkem768_recovers(dk, m)
                    &&& hybrid_client_key(dk, m, cs, sx) == hybrid_edge_key(dk, m, cs, sx)
                    &&& r.kem_ciphertext_preview@ == preview_of(ct)
                    &&& r.session_fingerprint@ == fingerprint_of(hybrid_client_key(dk, m, cs, sx))
                }
        },
{
    let start = clock_start();
    let (dk, ek) = mlkem768_generate();
    let (ct, kem_client) = match mlkem768_encapsulate(ek.as_slice()) {
        Some(pair) => pair,
        None => return Err(owned("ML-KEM encapsulation failed")),
    };
    let kem_server = match mlkem768_decapsulate(dk.as_slice(), ct.as_slice()) {
        Some(k) => k,
        None => return Err(owned("ML-KEM decapsulation failed")),
    };
    let client_secret = x25519_random_secret();
    let client_public = x25519_public(&client_secret);
    let server_secret = x25519_random_secret();
    let server_public = x25519_public(&server_secret);
    let dh_client = x25519_diffie_hellman(&client_secret, &server_public);
    let dh_server = x25519_diffie_hellman(&server_secret, &client_public);
    assert(x25519_shared(client_secret@, server_public@) == x25519_shared(
        server_secret@,
        x25519_public_key(client_secret@),
    ));
    let duration_ns = elapsed_nanos(&start);
    let ghost m = choose|m: Seq<u8>| m.len() == 32 && #[trigger] mlkem768_encaps(ek@, m) == (ct@, kem_client@);
    proof {
        assert(dk@.subrange(1152, 2336) == ek@);
        assert(mlkem768_encaps(dk@.subrange(1152, 2336), m) == (ct@, kem_client@));
        assert(mlkem768_recovers(dk@, m) == (kem_server@ == kem_client@));
    }
    let res = local_handshake_outcome(
        ct.as_slice(),
        kem_client.as_slice(),
        kem_server.as_slice(),
        &dh_client,
        &dh_server,
        ek.len(),
        duration_ns,
    );
    if let Ok(r) = &res {
        assert(hybrid_client_key(dk@, m, client_secret@, server_secret@) == session_key_of(
            kem_client@,
            dh_client@,
        ));
        assert(hybrid_edge_key(dk@, m, client_secret@, server_secret@) == session_key_of(
            kem_server@,
            dh_client@,
        ));
    }
    res
}


// ---------- networked handshake (client side) ----------

/// The client's half of a networked handshake against `hello`, given the
/// ciphertext `ct` and ML-KEM secret `ss_pq` it encapsulated and its X25519
/// secret `client_secret`: the secrets it keeps and the request it sends.
pub open spec fn client_exchange(
    hello: EdgeHello,
    client_wg_pub_b64: Seq<char>,
    ct: Seq<u8>,
    ss_pq: Seq<u8>,
    client_secret: Seq<u8>,
    secrets: SessionSecrets,
    req: ClientFinishRequest,
) -> bool {
    let client_public = x25519_public_key(client_secret);
    &&& client_public.len() == 32
    &&& base64_decode(hello.server_x25519_pub_b64@) matches Some(server_public)
    &&& server_public.len() == 32
    &&& secrets_match(
        secrets,
        session_key_of(ss_pq, x25519_shared(client_secret, server_public)),
        ct,
        MLKEM768_EK_BYTES as nat,
    )
    &&& req.handshake_id@ == hello.handshake_id@
    &&& req.kem_ciphertext_b64@ == base64_encode(ct)
    &&& base64_decode(req.kem_ciphertext_b64@) == Some(ct)
    &&& req.client_x25519_pub_b64@ == base64_encode(client_public)
    &&& base64_decode(req.client_x25519_pub_b64@) == Some(client_public)
    &&& req.client_wg_pub_b64@ == client_wg_pub_b64
}

/// The client's handshake once the ML-KEM encapsulation (`ct`, `ss_pq`) and
/// its X25519 secret are in hand: decodes the server's X25519 key, derives
/// the session and builds the finish request.
pub fn complete_client_finish(
    hello: &EdgeHello,
    client_wg_pub_b64: &str,
    ct: &[u8],
    ss_pq: &[u8],
    client_secret: &[u8; 32],
    duration_ns: u64,
) -> (res: Result<(SessionSecrets, ClientFinishRequest), String>)
    requires
        ct@.len() <= usize::MAX / 2,
    ensures
        base64_decode(hello.server_x25519_pub_b64@) is None ==> (res matches Err(e) && has_prefix(
            e@,
            "bad server x25519: "@,
        )),
        base64_decode(hello.server_x25519_pub_b64@) matches Some(sx) && sx.len() != 32 ==> (
        res matches Err(e) && e@ == "server X25519 public key must be 32 bytes"@),
        base64_decode(hello.server_x25519_pub_b64@) matches Some(sx) && sx.len() == 32 ==> (
        res matches Ok((s, r)) && client_exchange(
            *hello,
            client_wg_pub_b64@,
            ct@,
            ss_pq@,
            client_secret@,
            s,
            r,
        ) && s.duration_ns == duration_ns),
{
    let client_public = x25519_public(client_secret);
    let server_x = match base64_decode_text(hello.server_x25519_pub_b64.as_str()) {
        Ok(b) => b,
        Err(e) => {
            let detail = decode_error_text(&e);
            return Err(joined("bad server x25519: ", detail.as_str()));
        },
    };
    if server_x.len() != 32 {
        return Err(owned("server X25519 public key must be 32 bytes"));
    }
    let server_public = to_array32(server_x.as_slice());
    let shared = x25519_diffie_hellman(client_secret, &server_public);
    let session_key = hybrid_kdf(ss_pq, shared.as_slice());
    let secrets = make_secrets(session_key, ct, MLKEM768_EK_BYTES, duration_ns);
    let req = ClientFinishRequest {
        handshake_id: hello.handshake_id.clone(),
        kem_ciphertext_b64: base64_encode_bytes(ct),
        client_x25519_pub_b64: base64_encode_bytes(client_public.as_slice()),
        client_wg_pub_b64: owned(client_wg_pub_b64),
    };
    Ok((secrets, req))
}

/// The hello's ML-KEM key decodes to an encapsulation key of the right size.
pub open spec fn kem_key_usable(hello: EdgeHello) -> bool {
    base64_decode(hello.kem_public_key_b64@) matches Some(ek) && ek.len() == MLKEM768_EK_BYTES
}

/// Client completes a handshake against an edge Hello payload: encapsulates
/// to the edge's ML-KEM key, runs X25519 against the edge's key with a fresh
/// secret, and derives the hybrid session. Fails exactly when one of the
/// edge's keys does not decode or has the wrong length.
pub fn client_finish(hello: &EdgeHello, client_wg_pub_b64: &str) -> (res: Result<
    (SessionSecrets, ClientFinishRequest),
    String,
>)
    ensures
        base64_decode(hello.kem_public_key_b64@) is None ==> (res matches Err(e) && has_prefix(
            e@,
            "bad kem public key: "@,
        )),
        base64_decode(hello.kem_public_key_b64@) matches Some(ek) && ek.len() != MLKEM768_EK_BYTES
            ==> (res matches Err(e) && e@ == "invalid ML-KEM encapsulation key length"@),
        kem_key_usable(*hello) && base64_decode(hello.server_x25519_pub_b64@) is None ==> (
        res matches Err(e) && has_prefix(e@, "bad server x25519: "@)),
        kem_key_usable(*hello) && (base64_decode(hello.server_x25519_pub_b64@) matches Some(sx)
            && sx.len() != 32) ==> (res matches Err(e) && e@
            == "server X25519 public key must be 32 bytes"@),
        kem_key_usable(*hello) && (base64_decode(hello.server_x25519_pub_b64@) matches Some(sx)
            && sx.len() == 32) ==> (res matches Ok((s, r))
            && exists|ct: Seq<u8>, ss: Seq<u8>, cx: Seq<u8>, m: Seq<u8>|
            #![trigger client_exchange(*hello, client_wg_pub_b64@, ct, ss, cx, s, r), mlkem768_encaps(base64_decode(hello.kem_public_key_b64@)->Some_0, m)]
            ct.len() == MLKEM768_CT_BYTES && ss.len() == 32 && cx.len() == 32 && m.len() == 32
                && mlkem768_encaps(base64_decode(hello.kem_public_key_b64@)->Some_0, m) == (ct, ss)
                && client_exchange(*hello, client_wg_pub_b64@, ct, ss, cx, s, r)),
{
    let start = clock_start();
    let ek = match base64_decode_text(hello.kem_public_key_b64.as_str()) {
        Ok(b) => b,
        Err(e) => {
            let detail = decode_error_text(&e);
            return Err(joined("bad kem public key: ", detail.as_str()));
        },
    };
    let (ct, ss_pq) = match mlkem768_encapsulate(ek.as_slice()) {
        Some(pair) => pair,
        None => return Err(owned("invalid ML-KEM encapsulation key length")),
    };
    let client_secret = x25519_random_secret();
    let duration_ns = elapsed_nanos(&start);
    let res = complete_client_finish(
        hello,
        client_wg_pub_b64,
        ct.as_slice(),
        ss_pq.as_slice(),
        &client_secret,
        duration_ns,
    );
    if let Ok((s, r)) = &res {
        let ghost m = choose|m: Seq<u8>| m.len() == 32 && #[trigger] mlkem768_encaps(ek@, m) == (ct@, ss_pq@);
        assert(mlkem768_encaps(base64_decode(hello.kem_public_key_b64@)->Some_0, m) == (ct@, ss_pq@));
        assert(client_exchange(*hello, client_wg_pub_b64@, ct@, ss_pq@, client_secret@, *s, *r));
    }
    res
}

// ---------- networked handshake (server / edge side) ----------

/// Why an edge rejects a finish request.
#[derive(Clone, Copy, Debug, PartialEq, Eq, Structural)]
pub enum FinishFault {
    /// The ciphertext is not base64.
    BadCiphertext,
    /// The ciphertext is not 1088 bytes.
    CiphertextLength,
    /// The client's X25519 key is not base64.
    BadClientKey,
    /// The client's X25519 key is not 32 bytes.
    ClientKeyLength,
}

/// One half-open handshake held by the edge.
pub struct ServerSession {
    handshake_id: String,
    dk: Vec<u8>,
    ek_b64: String,
    x_secret: [u8; 32],
    x_pub_b64: String,
    wg_pub_b64: String,
    wg_endpoint: String,
}

/// The server's ML-KEM public key, the server's X25519 public key and the
/// wire form of both, from `server_start`.
pub fn server_start(handshake_id: String, wg_pub_b64: String, wg_endpoint: String) -> (s:
    ServerSession)
    ensures
        s.wf(),
        s.id_view() == handshake_id@,
        s.wg_pub_view() == wg_pub_b64@,
        s.wg_endpoint_view() == wg_endpoint@,
{
    let (dk, ek) = mlkem768_generate();
    let x_secret = x25519_random_secret();
    let x_pub = x25519_public(&x_secret);
    ServerSession {
        handshake_id,
        dk,
        ek_b64: base64_encode_bytes(ek.as_slice()),
        x_secret,
        x_pub_b64: base64_encode_bytes(x_pub.as_slice()),
        wg_pub_b64,
        wg_endpoint,
    }
}

impl ServerSession {
    /// The keys of a session are consistent: the decapsulation key has its
    /// FIPS 203 size, the advertised ML-KEM key decodes to an encapsulation
    /// key, the advertised X25519 key is the public key of the held secret,
    /// and that secret agrees with every client secret.
    pub closed spec fn wf(self) -> bool {
        &&& self.dk@.len() == MLKEM768_DK_BYTES
        &&& base64_decode(self.ek_b64@) == Some(self.dk@.subrange(1152, 2336))
        &&& self.x_pub_b64@ == base64_encode(x25519_public_key(self.x_secret@))
        &&& base64_decode(self.x_pub_b64@) == Some(x25519_public_key(self.x_secret@))
        &&& x25519_public_key(self.x_secret@).len() == 32
        &&& forall|other: Seq<u8>|
            other.len() == 32 ==> #[trigger] x25519_shared(other, x25519_public_key(self.x_secret@))
                == x25519_shared(self.x_secret@, x25519_public_key(other))
    }

    /// The handshake id.
    pub closed spec fn id_view(self) -> Seq<char> {
        self.handshake_id@
    }

    /// The server's WireGuard public key, as sent in the hello.
    pub closed spec fn wg_pub_view(self) -> Seq<char> {
        self.wg_pub_b64@
    }

    /// The advertised WireGuard endpoint.
    pub closed spec fn wg_endpoint_view(self) -> Seq<char> {
        self.wg_endpoint@
    }

    /// The encoded ML-KEM decapsulation key.
    pub closed spec fn decapsulation_key(self) -> Seq<u8> {
        self.dk@
    }

    /// The base64 ML-KEM encapsulation key sent in the hello.
    pub closed spec fn kem_public_key_b64(self) -> Seq<char> {
        self.ek_b64@
    }

    /// The session's X25519 secret.
    pub closed spec fn x25519_secret(self) -> Seq<u8> {
        self.x_secret@
    }

    /// The base64 X25519 public key sent in the hello.
    pub closed spec fn x25519_public_b64(self) -> Seq<char> {
        self.x_pub_b64@
    }

    /// The session key the server derives from a ciphertext and a client's
    /// X25519 public key.
    pub closed spec fn session_key_for(self, ct: Seq<u8>, client_public: Seq<u8>) -> Seq<u8> {
        session_key_of(
            mlkem768_shared_key(self.dk@, ct),
            x25519_shared(self.x_secret@, client_public),
        )
    }

    /// What a well-formed session advertises: its ML-KEM encapsulation key
    /// is the one held inside its decapsulation key (1184 bytes), and its
    /// X25519 key decodes to 32 bytes.
    pub proof fn lemma_advertised_keys(self)
        requires
            self.wf(),
        ensures
            self.decapsulation_key().len() == MLKEM768_DK_BYTES,
            base64_decode(self.kem_public_key_b64()) == Some(
                self.decapsulation_key().subrange(1152, 2336),
            ),
            self.decapsulation_key().subrange(1152, 2336).len() == MLKEM768_EK_BYTES,
            base64_decode(self.x25519_public_b64()) matches Some(k) && k.len() == 32,
            self.x25519_secret().len() == 32,
            base64_decode(self.x25519_public_b64()) == Some(x25519_public_key(self.x25519_secret())),
            forall|ct: Seq<u8>, client_public: Seq<u8>|
                #[trigger] self.session_key_for(ct, client_public) == session_key_of(
                    mlkem768_shared_key(self.decapsulation_key(), ct),
                    x25519_shared(self.x25519_secret(), client_public),
                ),
    {
    }

    /// What the server makes of a finish request: the session key, or why it
    /// refuses.
    pub open spec fn finish_spec(self, req: ClientFinishRequest) -> Result<Seq<u8>, FinishFault> {
        match base64_decode(req.kem_ciphertext_b64@) {
            None => Err(FinishFault::BadCiphertext),
            Some(ct) => if ct.len() != MLKEM768_CT_BYTES {
                Err(FinishFault::CiphertextLength)
            } else {
                match base64_decode(req.client_x25519_pub_b64@) {
                    None => Err(FinishFault::BadClientKey),
                    Some(cx) => if cx.len() != 32 {
                        Err(FinishFault::ClientKeyLength)
                    } else {
                        Ok(self.session_key_for(ct, cx))
                    },
                }
            },
        }
    }

    /// The handshake id.
    pub fn handshake_id(&self) -> (id: &String)
        ensures
            id@ == self.id_view(),
    {
        &self.handshake_id
    }

    /// The server's WireGuard public key.
    pub fn wg_pub_b64(&self) -> (k: &String)
        ensures
            k@ == self.wg_pub_view(),
    {
        &self.wg_pub_b64
    }

    /// The advertised WireGuard endpoint.
    pub fn wg_endpoint(&self) -> (e: &String)
        ensures
            e@ == self.wg_endpoint_view(),
    {
        &self.wg_endpoint
    }

    /// The hello that opens this handshake.
    pub fn hello(&self) -> (h: EdgeHello)
        ensures
            h.handshake_id@ == self.id_view(),
            h.kem_public_key_b64@ == self.kem_public_key_b64(),
            h.server_x25519_pub_b64@ == self.x25519_public_b64(),
            h.server_wg_pub_b64@ == self.wg_pub_view(),
            h.wg_endpoint@ == self.wg_endpoint_view(),
            self.wf() ==> kem_key_usable(h),
            self.wf() ==> (base64_decode(h.server_x25519_pub_b64@) matches Some(k) && k.len()
                == 32),
    {
        EdgeHello {
            handshake_id: self.handshake_id.clone(),
            kem_public_key_b64: self.ek_b64.clone(),
            server_x25519_pub_b64: self.x_pub_b64.clone(),
            server_wg_pub_b64: self.wg_pub_b64.clone(),
            wg_endpoint: self.wg_endpoint.clone(),
        }
    }

    /// Decodes and checks a finish request and derives the session key; on
    /// refusal, the fault and the decoder's explanation where there is one.
    pub fn derive_session(&self, req: &ClientFinishRequest) -> (res: Result<
        (Vec<u8>, [u8; 32]),
        (FinishFault, String),
    >)
        requires
            self.wf(),
        ensures
            match self.finish_spec(*req) {
                Ok(key) => res matches Ok((ct, k)) && k@ == key && base64_decode(
                    req.kem_ciphertext_b64@,
                ) == Some(ct@) && ct@.len() == MLKEM768_CT_BYTES,
                Err(fault) => res matches Err((f, _)) && f == fault,
            },
    {
        let ct = match base64_decode_text(req.kem_ciphertext_b64.as_str()) {
            Ok(b) => b,
            Err(e) => return Err((FinishFault::BadCiphertext, decode_error_text(&e))),
        };
        let ss_pq = match mlkem768_decapsulate(self.dk.as_slice(), ct.as_slice()) {
            Some(k) => k,
            None => return Err((FinishFault::CiphertextLength, String::new())),
        };
        let client_x = match base64_decode_text(req.client_x25519_pub_b64.as_str()) {
            Ok(b) => b,
            Err(e) => return Err((FinishFault::BadClientKey, decode_error_text(&e))),
        };
        if client_x.len() != 32 {
            return Err((FinishFault::ClientKeyLength, String::new()));
        }
        let client_public = to_array32(client_x.as_slice());
        let shared = x25519_diffie_hellman(&self.x_secret, &client_public);
        let key = hybrid_kdf(ss_pq.as_slice(), shared.as_slice());
        Ok((ct, key))
    }

    /// Completes the handshake from the client's request.
    pub fn finish(&self, req: &ClientFinishRequest) -> (res: Result<SessionSecrets, String>)
        requires
            self.wf(),
        ensures
            match self.finish_spec(*req) {
                Ok(key) => res matches Ok(s) && secrets_match(
                    s,
                    key,
                    base64_decode(req.kem_ciphertext_b64@)->Some_0,
                    MLKEM768_EK_BYTES as nat,
                ),
                Err(FinishFault::BadCiphertext) => res matches Err(e) && has_prefix(
                    e@,
                    "bad ciphertext: "@,
                ),
                Err(FinishFault::CiphertextLength) => res matches Err(e) && e@
                    == "invalid ML-KEM ciphertext length"@,
                Err(FinishFault::BadClientKey) => res matches Err(e) && has_prefix(
                    e@,
                    "bad client x25519: "@,
                ),
                Err(FinishFault::ClientKeyLength) => res matches Err(e) && e@
                    == "client X25519 public key must be 32 bytes"@,
            },
    {
        let start = clock_start();
        match self.derive_session(req) {
            Ok((ct, key)) => {
                let ek_bytes = match base64_decode_text(self.ek_b64.as_str()) {
                    Ok(b) => b.len(),
                    Err(_) => MLKEM768_EK_BYTES,
                };
                let duration_ns = elapsed_nanos(&start);
                Ok(make_secrets(key, ct.as_slice(), ek_bytes, duration_ns))
            },
            Err((FinishFault::BadCiphertext, detail)) => Err(
                joined("bad ciphertext: ", detail.as_str()),
            ),
            Err((FinishFault::CiphertextLength, _)) => Err(
                owned("invalid ML-KEM ciphertext length"),
            ),
            Err((FinishFault::BadClientKey, detail)) => Err(
                joined("bad client x25519: ", detail.as_str()),
            ),
            Err((FinishFault::ClientKeyLength, _)) => Err(
                owned("client X25519 public key must be 32 bytes"),
            ),
        }
    }
}

/// Law: a client and an edge that run the handshake against each other
/// derive the same session key, hence the same fingerprint and the same
/// WireGuard PresharedKey, whenever ML-KEM decapsulation recovers the secret
/// the client encapsulated (ML-KEM's correctness, which holds for all but a
/// negligible fraction of ciphertexts).
pub proof fn lemma_client_and_server_agree(
    session: ServerSession,
    hello: EdgeHello,
    client_wg_pub_b64: Seq<char>,
    ct: Seq<u8>,
    ss_pq: Seq<u8>,
    client_secret: Seq<u8>,
    secrets: SessionSecrets,
    req: ClientFinishRequest,
)
    requires
        session.wf(),
        hello.server_x25519_pub_b64@ == session.x25519_public_b64(),
        ct.len() == MLKEM768_CT_BYTES,
        client_secret.len() == 32,
        client_exchange(hello, client_wg_pub_b64, ct, ss_pq, client_secret, secrets, req),
        mlkem768_shared_key(session.decapsulation_key(), ct) == ss_pq,
    ensures
        session.finish_spec(req) == Ok::<Seq<u8>, FinishFault>(secrets.session_key@),
        wg_psk_of(secrets.session_key@) == wg_psk_of(session.finish_spec(req)->Ok_0),
{
    let cx = x25519_public_key(client_secret);
    assert(x25519_shared(client_secret, x25519_public_key(session.x_secret@)) == x25519_shared(
        session.x_secret@,
        cx,
    ));
}

} // verus!
