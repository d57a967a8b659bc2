//! The outside cryptography and encoding that the handshake is built on.
//!
//! Every item here is trusted: its contract is taken from the outside crate's
//! documentation and source, not proved. Keys travel through the library as
//! plain byte strings; the outside key types only exist inside these bodies.

use base64::engine::general_purpose::STANDARD as B64;
use base64::Engine;
use ml_kem::kem::{Decapsulate, Encapsulate};
use ml_kem::{Ciphertext, Encoded, EncodedSizeUser, KemCore, MlKem768};
use rand::rngs::OsRng;
use sha2::Digest;
use vstd::prelude::*;

verus! {

type MlKemEk = <MlKem768 as KemCore>::EncapsulationKey;

type MlKemDk = <MlKem768 as KemCore>::DecapsulationKey;

/// Byte length of an ML-KEM-768 encapsulation (public) key (FIPS 203).
pub const MLKEM768_EK_BYTES: usize = 1184;

/// Byte length of an ML-KEM-768 decapsulation (private) key (FIPS 203).
pub const MLKEM768_DK_BYTES: usize = 2400;

/// Byte length of an ML-KEM-768 ciphertext (FIPS 203).
pub const MLKEM768_CT_BYTES: usize = 1088;

/// The SHA-256 digest of a byte string.
pub uninterp spec fn sha256_digest(data: Seq<u8>) -> Seq<u8>;

/// The ML-KEM-768 shared key recovered from an encoded decapsulation key and
/// an encoded ciphertext.
pub uninterp spec fn mlkem768_shared_key(dk: Seq<u8>, ct: Seq<u8>) -> Seq<u8>;

/// The ML-KEM-768 encapsulation to an encoded encapsulation key with the
/// 32-byte message `m` (the deterministic step after the random choice of
/// `m`): the ciphertext and the shared key.
pub uninterp spec fn mlkem768_encaps(ek: Seq<u8>, m: Seq<u8>) -> (Seq<u8>, Seq<u8>);

/// The X25519 public key of a 32-byte secret.
pub uninterp spec fn x25519_public_key(secret: Seq<u8>) -> Seq<u8>;

/// The X25519 shared secret of a 32-byte secret and a peer's public key.
pub uninterp spec fn x25519_shared(secret: Seq<u8>, public: Seq<u8>) -> Seq<u8>;

/// Standard (padded) base64 encoding of a byte string.
pub uninterp spec fn base64_encode(bytes: Seq<u8>) -> Seq<char>;

/// Standard (padded, canonical) base64 decoding; `None` where the text is not
/// valid base64.
pub uninterp spec fn base64_decode(text: Seq<char>) -> Option<Seq<u8>>;

/// A character of the standard base64 alphabet (RFC 4648: `A`-`Z`, `a`-`z`,
/// `0`-`9`, `+`, `/`) or its padding `=`.
pub open spec fn is_base64_char(c: char) -> bool {
    ('A' <= c && c <= 'Z') || ('a' <= c && c <= 'z') || ('0' <= c && c <= '9') || c == '+' || c
        == '/' || c == '='
}

#[verifier::external_type_specification]
#[verifier::external_body]
pub struct ExDecodeError(base64::DecodeError);

#[verifier::external_type_specification]
#[verifier::external_body]
pub struct ExInstant(std::time::Instant);

/// `sha2::Sha256::digest`: the digest is the SHA-256 function of the input.
/// Feeding the same bytes through several `update` calls gives the same
/// digest, so the callers hash the concatenation.
#[verifier::external_body]
pub(crate) fn sha256(data: &[u8]) -> (digest: [u8; 32])
    ensures
        digest@ == sha256_digest(data@),
{
    sha2::Sha256::digest(data).into()
}

/// `MlKem768::generate` with the operating-system RNG, both keys returned in
/// their FIPS 203 encodings. The keys are random: their lengths are promised,
/// and that the encoded decapsulation key holds the encapsulation key at
/// bytes 1152..2336 (ml-kem's `concat_dk`: decryption key, encapsulation
/// key, hash, seed), the key `generate` returns beside it.
#[verifier::external_body]
pub(crate) fn mlkem768_generate() -> (keys: (Vec<u8>, Vec<u8>))
    ensures
        keys.0@.len() == MLKEM768_DK_BYTES,
        keys.1@.len() == MLKEM768_EK_BYTES,
        keys.0@.subrange(1152, 2336) == keys.1@,
{
    let (dk, ek) = MlKem768::generate(&mut OsRng);
    (dk.as_bytes().to_vec(), ek.as_bytes().to_vec())
}

/// `EncapsulationKey::encapsulate` on an encoded key, with the operating-system
/// RNG. The conversion from bytes fails exactly when the length is not 1184
/// (`hybrid_array`'s `TryFrom<&[u8]>`); `encapsulate` itself never fails in
/// ml-kem 0.2. It draws a random 32-byte message and encapsulates with it
/// deterministically: the result is that encapsulation for some message,
/// which is left unsaid.
#[verifier::external_body]
pub(crate) fn mlkem768_encapsulate(ek: &[u8]) -> (out: Option<(Vec<u8>, Vec<u8>)>)
    ensures
        out is None <==> ek@.len() != MLKEM768_EK_BYTES,
        out matches Some((ct, ss)) ==> ct@.len() == MLKEM768_CT_BYTES && ss@.len() == 32,
        out matches Some((ct, ss)) ==> exists|m: Seq<u8>|
            m.len() == 32 && #[trigger] mlkem768_encaps(ek@, m) == (ct@, ss@),
{
    let encoded = Encoded::<MlKemEk>::try_from(ek).ok()?;
    let (ct, ss) = MlKemEk::from_bytes(&encoded).encapsulate(&mut OsRng).ok()?;
    Some((ct.to_vec(), ss.to_vec()))
}

/// `DecapsulationKey::decapsulate` on an encoded key and ciphertext. The
/// conversions from bytes fail exactly on a wrong length; `decapsulate` itself
/// never fails in ml-kem 0.2 (implicit rejection) and is deterministic.
#[verifier::external_body]
pub(crate) fn mlkem768_decapsulate(dk: &[u8], ct: &[u8]) -> (ss: Option<Vec<u8>>)
    ensures
        ss is None <==> (dk@.len() != MLKEM768_DK_BYTES || ct@.len() != MLKEM768_CT_BYTES),
        ss matches Some(k) ==> k@ == mlkem768_shared_key(dk@, ct@) && k@.len() == 32,
{
    let key = MlKemDk::from_bytes(&Encoded::<MlKemDk>::try_from(dk).ok()?);
    let ct = Ciphertext::<MlKem768>::try_from(ct).ok()?;
    let ss = key.decapsulate(&ct).ok()?;
    Some(ss.to_vec())
}

/// `StaticSecret::random_from_rng(OsRng)`, as its 32 raw bytes. Random:
/// nothing is promised of the value.
#[verifier::external_body]
pub(crate) fn x25519_random_secret() -> [u8; 32] {
    x25519_dalek::StaticSecret::random_from_rng(OsRng).to_bytes()
}

/// `PublicKey::from(&StaticSecret::from(secret))`. The second clause is the
/// Diffie-Hellman agreement that x25519-dalek documents ("these secrets are
/// the same"): any other secret combined with this public key gives what this
/// secret gives with the other secret's public key.
#[verifier::external_body]
pub(crate) fn x25519_public(secret: &[u8; 32]) -> (public: [u8; 32])
    ensures
        public@ == x25519_public_key(secret@),
        forall|other: Seq<u8>|
            other.len() == 32 ==> #[trigger] x25519_shared(other, public@) == x25519_shared(
                secret@,
                x25519_public_key(other),
            ),
{
    let s = x25519_dalek::StaticSecret::from(*secret);
    x25519_dalek::PublicKey::from(&s).to_bytes()
}

/// `StaticSecret::from(secret).diffie_hellman(&PublicKey::from(public))`.
#[verifier::external_body]
pub(crate) fn x25519_diffie_hellman(secret: &[u8; 32], public: &[u8; 32]) -> (shared: [u8; 32])
    ensures
        shared@ == x25519_shared(secret@, public@),
{
    let s = x25519_dalek::StaticSecret::from(*secret);
    s.diffie_hellman(&x25519_dalek::PublicKey::from(*public)).to_bytes()
}

/// `STANDARD.encode`: the padded base64 text, written in the standard
/// alphabet, whose length is four characters per started group of three
/// bytes, and which decodes back to the input. The crate panics when that
/// length overflows `usize`, which the bound excludes.
#[verifier::external_body]
pub(crate) fn base64_encode_bytes(bytes: &[u8]) -> (text: String)
    requires
        bytes@.len() <= usize::MAX / 2,
    ensures
        text@ == base64_encode(bytes@),
        text@.len() == 4 * ((bytes@.len() + 2) / 3),
        base64_decode(text@) == Some(bytes@),
        forall|i: int| 0 <= i < text@.len() ==> is_base64_char(#[trigger] text@[i]),
{
    B64.encode(bytes)
}

/// `STANDARD.decode` of a string's bytes.
#[verifier::external_body]
pub(crate) fn base64_decode_text(text: &str) -> (bytes: Result<Vec<u8>, base64::DecodeError>)
    ensures
        match bytes {
            Ok(b) => base64_decode(text@) == Some(b@),
            Err(_) => base64_decode(text@) is None,
        },
{
    B64.decode(text)
}

/// The `Display` text of a base64 decoding error. Nothing is promised of the
/// text.
#[verifier::external_body]
pub(crate) fn decode_error_text(e: &base64::DecodeError) -> String {
    format!("{e}")
}

/// `uuid::Uuid::new_v4().to_string()`: a random identifier; nothing is
/// promised of it.
#[verifier::external_body]
pub(crate) fn random_handshake_id() -> String {
    uuid::Uuid::new_v4().to_string()
}

/// `std::time::Instant::now()`.
#[verifier::external_body]
pub(crate) fn clock_start() -> std::time::Instant {
    std::time::Instant::now()
}

/// Nanoseconds since `start` (`Instant::elapsed`), saturated into a `u64`.
/// The clock is the machine's: nothing is promised of the value.
#[verifier::external_body]
pub(crate) fn elapsed_nanos(start: &std::time::Instant) -> u64 {
    u64::try_from(start.elapsed().as_nanos()).unwrap_or(u64::MAX)
}

} // verus!
