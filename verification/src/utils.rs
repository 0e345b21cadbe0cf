//! Cryptographic primitives used by the client and the server: key derivation,
//! MACs, the oblivious pseudorandom function and the handshake transcript.
//!
//! Consumers should go through the `client` and `server` modules.
use crate::bytes::{append, append_length_prefixed, concat, concat3, label, to_array64};
use crate::group::{
    is_group_element, is_invertible, is_key_pair, ristretto_decodes, ristretto_mul, RistrettoPoint,
    Scalar,
};
use crate::model;
use crate::model::{hkdf_sha512_expand, hmac_sha512, sha512};
use crate::wire_structs::{Ke1, Ke2};
use crate::{NH, NM, NN};
use hmac::Mac;
use rand::RngExt;
use vstd::prelude::*;

verus! {

// ---------------------------------------------------------------------------
// Trusted calls into hkdf, hmac, sha2 and rand
// ---------------------------------------------------------------------------

/// HKDF-Extract with SHA-512. Returns a 64-byte pseudorandom key.
///
/// Trusted: `hkdf::Hkdf::<Sha512>::extract` with the salt given. It is the
/// HMAC-SHA-512 tag of the input key material, with the salt as the key.
#[verifier::external_body]
pub fn hkdf_extract(salt: &[u8], ikm: &[u8]) -> (prk: [u8; NH])
    ensures
        prk@ == hmac_sha512(salt@, ikm@),
{
    let (prk, _) = hkdf::Hkdf::<sha2::Sha512>::extract(Some(salt), ikm);
    prk.into()
}

/// HKDF-Expand with SHA-512. `len` must not exceed 255 times 64 bytes.
///
/// Trusted: `hkdf::Hkdf::<Sha512>::from_prk`, which takes keys of at least 64
/// bytes, and `expand`, which fills a buffer of `len` bytes and refuses only
/// longer ones. What fills it is [`hkdf_sha512_expand`].
#[verifier::external_body]
pub fn hkdf_expand(prk: &[u8], info: &[u8], len: usize) -> (okm: Vec<u8>)
    requires
        prk@.len() >= 64,
        len <= 255 * 64,
    ensures
        okm@ == hkdf_sha512_expand(prk@, info@, len as nat),
        okm@.len() == len,
{
    let h = hkdf::Hkdf::<sha2::Sha512>::from_prk(prk).unwrap();
    let mut okm = vec![0u8; len];
    h.expand(info, &mut okm).unwrap();
    okm
}

/// HMAC-SHA-512 over `msg` with `key`. Returns 64 bytes.
///
/// Trusted: `hmac::Hmac::<Sha512>`, which takes keys of any length. The tag is
/// [`hmac_sha512`].
#[verifier::external_body]
pub fn mac_fn(key: &[u8], msg: &[u8]) -> (tag: [u8; NM])
    ensures
        tag@ == hmac_sha512(key@, msg@),
{
    let mut h = <crate::HmacSha512 as hmac::KeyInit>::new_from_slice(key).unwrap();
    h.update(msg);
    h.finalize().into_bytes().into()
}

/// SHA-512 of `msg`. Returns 64 bytes.
///
/// Trusted: `sha2::Sha512::digest`. The digest is named by [`sha512`].
#[verifier::external_body]
pub fn hash(msg: &[u8]) -> (digest: [u8; NH])
    ensures
        digest@ == sha512(msg@),
{
    <sha2::Sha512 as sha2::Digest>::digest(msg).into()
}

/// Random bytes.
///
/// Trusted: `rand::rng` and `RngExt::fill`. Nothing is claimed of the bytes.
#[verifier::external_body]
pub(crate) fn random_bytes<const N: usize>() -> (bytes: [u8; N]) {
    let mut bytes = [0u8; N];
    rand::rng().fill(&mut bytes);
    bytes
}

/// Whether these bytes are what a call of the random generator returned. Nothing but
/// such a call shows it.
pub closed spec fn is_draw<const N: usize>(bytes: [u8; N]) -> bool {
    call_ensures(random_bytes::<N>, (), bytes)
}

/// What counts as drawn has come out of the generator.
pub(crate) proof fn law_draws_come_from_the_generator<const N: usize>(bytes: [u8; N])
    ensures
        is_draw(bytes) <==> call_ensures(random_bytes::<N>, (), bytes),
{
}

/// Bytes from the random generator.
pub(crate) fn draw<const N: usize>() -> (bytes: [u8; N])
    ensures
        is_draw(bytes),
{
    random_bytes()
}

// ---------------------------------------------------------------------------
// Key derivation
// ---------------------------------------------------------------------------

/// Derives a labeled 64-byte secret: HKDF-Expand of `prk` over `label` followed
/// by `context`.
pub fn derive_secret(prk: &[u8], label: &[u8], context: &[u8]) -> (secret: [u8; NH])
    requires
        prk@.len() >= 64,
    ensures
        secret@ == model::derived_secret(prk@, label@, context@),
{
    let info = concat(label, context);
    let out = hkdf_expand(prk, &info, NH);
    to_array64(&out)
}

/// Derives `(km2, km3, session_key)` from the key material of the three
/// Diffie-Hellman exchanges and the transcript preamble.
///
/// - `km2`: key for the server MAC
/// - `km3`: key for the client MAC
/// - `session_key`: 64-byte shared secret
pub fn derive_keys(ikm: &[u8], preamble: &[u8]) -> (keys: ([u8; NH], [u8; NH], [u8; NH]))
    ensures
        (keys.0@, keys.1@, keys.2@) == model::handshake_keys(ikm@, preamble@),
{
    let empty: [u8; 0] = [];
    assert(empty@ =~= Seq::<u8>::empty());
    let prk = hkdf_extract(&empty, ikm);
    let preamble_hash = hash(preamble);
    let handshake_secret = derive_secret(&prk, "HandshakeSecret".as_bytes(), &preamble_hash);
    let session_key = derive_secret(&prk, "SessionKey".as_bytes(), &preamble_hash);
    let km2 = derive_secret(&handshake_secret, "ServerMAC".as_bytes(), &empty);
    let km3 = derive_secret(&handshake_secret, "ClientMAC".as_bytes(), &empty);
    (km2, km3, session_key)
}

/// Deterministically derives a key pair from `seed` by HKDF.
///
/// Returns `(scalar, public_key)`.
pub fn derive_dh_keypair(seed: &[u8]) -> (pair: (Scalar, RistrettoPoint))
    ensures
        pair.0@ == model::seeded_private_key(seed@),
        pair.1@ == model::public_key(pair.0@),
        is_key_pair(pair.0@, pair.1@),
{
    let prk = hkdf_extract("OPAQUE-DeriveKeyPair".as_bytes(), seed);
    let expanded = hkdf_expand(&prk, "OPAQUE-DeriveKeyPair".as_bytes(), 64);
    let sk = Scalar::from_bytes_mod_order_wide(&to_array64(&expanded));
    let pk = RistrettoPoint::mul_base(&sk);
    (sk, pk)
}

// ---------------------------------------------------------------------------
// Group operations
// ---------------------------------------------------------------------------

/// Scalar multiplication: the encoding of `point` times `scalar`.
pub fn dh(scalar: &Scalar, point: &RistrettoPoint) -> (shared: [u8; 32])
    ensures
        shared@ == ristretto_mul(point@, scalar@),
{
    point.mul(scalar).compress()
}

/// Decodes a 32-byte group element, which `bytes` must encode canonically.
pub fn decompress(bytes: &[u8; 32]) -> (point: RistrettoPoint)
    requires
        ristretto_decodes(bytes@),
    ensures
        point@ == bytes@,
{
    RistrettoPoint::from_encoding(bytes).unwrap()
}

/// Decodes a 32-byte group element; `None` when `bytes` is not the canonical
/// encoding of one.
pub fn try_decompress(bytes: &[u8; 32]) -> (point: Option<RistrettoPoint>)
    ensures
        point is Some <==> ristretto_decodes(bytes@),
        point matches Some(p) ==> p@ == bytes@,
{
    if is_valid_element(bytes) {
        Some(decompress(bytes))
    } else {
        None
    }
}

/// Whether `bytes` is the canonical encoding of a group element.
pub fn is_valid_element(bytes: &[u8; 32]) -> (valid: bool)
    ensures
        valid == ristretto_decodes(bytes@),
{
    RistrettoPoint::from_encoding(bytes).is_some()
}

// ---------------------------------------------------------------------------
// The oblivious pseudorandom function
// ---------------------------------------------------------------------------

/// Password stretching. It is the identity; put a memory-hard function such as
/// Argon2id in its place before production use.
pub fn stretch(msg: &[u8]) -> (out: Vec<u8>)
    ensures
        out@ == model::stretched(msg@),
{
    let mut out: Vec<u8> = Vec::new();
    append(&mut out, msg);
    assert(out@ =~= msg@);
    out
}

/// Derives the evaluation key of one client from the server's global seed and
/// the client's `credential_identifier`.
pub fn oprf_derive_key(oprf_seed: &[u8; NH], credential_identifier: &[u8]) -> (key: Scalar)
    ensures
        key@ == model::oprf_key(oprf_seed@, credential_identifier@),
{
    let info = concat(credential_identifier, "OprfKey".as_bytes());
    let seed = hkdf_expand(oprf_seed, &info, 64);
    Scalar::from_bytes_mod_order_wide(&to_array64(&seed))
}

/// Hashes `password` to a group element and applies a random blinding scalar.
///
/// Returns `(blind, blinded_element)`.
/// The caller must keep `blind` to call [`oprf_finalize`] later.
pub fn oprf_blind(password: &[u8]) -> (blinded: (Scalar, RistrettoPoint))
    ensures
        exists|random: [u8; 64]| #[trigger]
            is_draw(random) && blinded.0@ == model::blind_scalar(random@),
        blinded.1@ == model::blinded_element(password@, blinded.0@),
        is_group_element(model::password_element(password@)),
        is_group_element(blinded.1@),
{
    let random: [u8; 64] = draw();
    oprf_blind_with(password, &random)
}

/// [`oprf_blind`] with the random bytes given.
pub fn oprf_blind_with(password: &[u8], random: &[u8; 64]) -> (blinded: (Scalar, RistrettoPoint))
    ensures
        blinded.0@ == model::blind_scalar(random@),
        blinded.1@ == model::blinded_element(password@, blinded.0@),
        is_group_element(model::password_element(password@)),
        is_group_element(blinded.1@),
{
    let point = RistrettoPoint::from_uniform_bytes(&hash(password));
    let blind = Scalar::from_bytes_mod_order_wide(random);
    let blinded = point.mul(&blind);
    (blind, blinded)
}

/// Removes the blinding scalar from the server's evaluated element and hashes
/// the result to produce the 64-byte output.
pub fn oprf_finalize(evaluated: &RistrettoPoint, blind: &Scalar) -> (output: [u8; NH])
    ensures
        output@ == model::oprf_output(evaluated@, blind@),
        blind@ != 0 ==> is_invertible(blind@),
{
    hash(&evaluated.mul(&blind.invert()).compress())
}

/// Derives the randomized password from the 64-byte output.
///
/// The result is the key from which envelope keys and the client key pair
/// are derived.
pub fn randomized_password(oprf_output: &[u8; NH]) -> (rand_pwd: [u8; NH])
    ensures
        rand_pwd@ == model::randomized_password(oprf_output@),
{
    let empty: [u8; 0] = [];
    assert(empty@ =~= Seq::<u8>::empty());
    let stretched = stretch(oprf_output);
    let ikm = concat(oprf_output, &stretched);
    hkdf_extract(&empty, &ikm)
}

// ---------------------------------------------------------------------------
// Messages
// ---------------------------------------------------------------------------

/// Builds the message that the envelope tag authenticates:
/// `nonce || server_pk || u16(len(server_id)) || server_id || u16(len(client_id)) || client_id`
pub fn envelope_mac_msg(
    nonce: &[u8; NN],
    server_pk: &[u8],
    server_identity: &[u8],
    client_identity: &[u8],
) -> (msg: Vec<u8>)
    ensures
        msg@ == model::envelope_message(nonce@, server_pk@, server_identity@, client_identity@),
{
    let mut msg: Vec<u8> = concat(nonce, server_pk);
    append_length_prefixed(&mut msg, server_identity);
    append_length_prefixed(&mut msg, client_identity);
    msg
}

/// KE1 on the wire.
pub fn ke1_bytes(ke1: &Ke1) -> (bytes: Vec<u8>)
    ensures
        bytes@ == model::ke1_encoding(ke1@),
{
    concat3(&ke1.blinded_element, &ke1.client_nonce, &ke1.client_ephemeral_pk)
}

/// The credential response within KE2, on the wire.
pub fn credential_response_bytes(ke2: &Ke2) -> (bytes: Vec<u8>)
    ensures
        bytes@ == model::credential_response_encoding(ke2@),
{
    let mut bytes = concat3(&ke2.evaluated_element, &ke2.envelope_nonce, &ke2.envelope_auth_tag);
    append(&mut bytes, &ke2.server_public_key);
    bytes
}

/// Builds the transcript preamble used in MAC and key derivation:
/// `"OPAQUEv1-" || u16(len(ctx)) || ctx || u16(len(cid)) || cid || KE1 || u16(len(sid)) || sid || CredentialResponse || server_nonce || server_ephemeral_pk`,
/// where the context `ctx` is empty.
pub fn build_preamble(
    client_identity: &[u8],
    ke1: &Ke1,
    server_identity: &[u8],
    ke2: &Ke2,
) -> (transcript: Vec<u8>)
    ensures
        transcript@ == model::preamble(client_identity@, ke1@, server_identity@, ke2@),
{
    let context: [u8; 0] = [];
    assert(context@ =~= Seq::<u8>::empty());
    let mut p: Vec<u8> = Vec::new();
    append(&mut p, "OPAQUEv1-".as_bytes());
    assert(p@ =~= label("OPAQUEv1-"));
    append_length_prefixed(&mut p, &context);
    append_length_prefixed(&mut p, client_identity);
    append(&mut p, &ke1_bytes(ke1));
    append_length_prefixed(&mut p, server_identity);
    append(&mut p, &credential_response_bytes(ke2));
    append(&mut p, &ke2.server_nonce);
    append(&mut p, &ke2.server_ephemeral_pk);
    p
}

} // verus!
