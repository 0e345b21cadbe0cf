//! The protocol as mathematics: what each message, key and tag is, as a function
//! of the secrets, seeds and messages it is made from.
use crate::bytes::{label, length_prefixed};
use crate::group::{
    group_order, is_key_pair, le_value, ristretto_basepoint,
    ristretto_from_uniform, ristretto_mul, scalar_inverse,
};
use crate::wire_structs::{
    Ke1View, Ke2View, RegistrationRecordView, RegistrationRequestView, RegistrationResponseView,
};
use crate::{OpaqueError, NH, NM, NSEED};
use vstd::prelude::*;

verus! {

// ---------------------------------------------------------------------------
// A name for the results of the hash library
// ---------------------------------------------------------------------------

/// The SHA-512 digest of `msg`.
pub uninterp spec fn sha512(msg: Seq<u8>) -> Seq<u8>;

// ---------------------------------------------------------------------------
// MAC and key derivation over the hash
// ---------------------------------------------------------------------------

/// The block that stands for a MAC key: the key, or its digest when it is longer
/// than a block of 128 bytes, filled up with zeros.
pub open spec fn hmac_block(key: Seq<u8>) -> Seq<u8> {
    let short = if key.len() > 128 {
        sha512(key)
    } else {
        key
    };
    Seq::new(
        128,
        |i: int|
            if i < short.len() {
                short[i]
            } else {
                0u8
            },
    )
}

/// The HMAC-SHA-512 tag of `msg` under `key`.
#[verifier::opaque]
pub open spec fn hmac_sha512(key: Seq<u8>, msg: Seq<u8>) -> Seq<u8> {
    let inner = hmac_block(key).map_values(|b: u8| b ^ 0x36u8);
    let outer = hmac_block(key).map_values(|b: u8| b ^ 0x5cu8);
    sha512(outer + sha512(inner + msg))
}

/// The `n`-th block of 64 bytes of HKDF-Expand with SHA-512, counted from one: the
/// MAC of the block before it, the info and the number of the block.
pub open spec fn hkdf_sha512_block(prk: Seq<u8>, info: Seq<u8>, n: nat) -> Seq<u8>
    decreases n,
{
    let before = if n <= 1 {
        Seq::empty()
    } else {
        hkdf_sha512_block(prk, info, (n - 1) as nat)
    };
    hmac_sha512(prk, before + info + seq![n as u8])
}

/// HKDF-Expand with SHA-512 for `prk` and `info`: the first `len` bytes of the blocks.
#[verifier::opaque]
pub open spec fn hkdf_sha512_expand(prk: Seq<u8>, info: Seq<u8>, len: nat) -> Seq<u8> {
    Seq::new(len, |i: int| hkdf_sha512_block(prk, info, (i / 64 + 1) as nat)[i % 64])
}

// ---------------------------------------------------------------------------
// Key derivation
// ---------------------------------------------------------------------------

/// HKDF-Extract with SHA-512: the MAC of the input key material under the salt.
pub open spec fn hkdf_sha512_extract(salt: Seq<u8>, ikm: Seq<u8>) -> Seq<u8> {
    hmac_sha512(salt, ikm)
}

/// The labeled 64-byte secret that belongs to `prk`, `tag` and `context`.
pub open spec fn derived_secret(prk: Seq<u8>, tag: Seq<u8>, context: Seq<u8>) -> Seq<u8> {
    hkdf_sha512_expand(prk, tag + context, NH as nat)
}

/// The private scalar that a seed determines.
pub open spec fn seeded_private_key(seed: Seq<u8>) -> nat {
    let prk = hkdf_sha512_extract(label("OPAQUE-DeriveKeyPair"), seed);
    le_value(hkdf_sha512_expand(prk, label("OPAQUE-DeriveKeyPair"), 64)) % group_order()
}

/// The public element of a private scalar.
pub open spec fn public_key(private_key: nat) -> Seq<u8> {
    ristretto_mul(ristretto_basepoint(), private_key)
}

/// `(km2, km3, session_key)`: the server MAC key, the client MAC key and the
/// session key that the key material of the three exchanges and the transcript
/// determine.
pub open spec fn handshake_keys(ikm: Seq<u8>, transcript: Seq<u8>) -> (Seq<u8>, Seq<u8>, Seq<u8>) {
    let prk = hkdf_sha512_extract(Seq::empty(), ikm);
    let digest = sha512(transcript);
    let handshake_secret = derived_secret(prk, label("HandshakeSecret"), digest);
    (
        derived_secret(handshake_secret, label("ServerMAC"), Seq::empty()),
        derived_secret(handshake_secret, label("ClientMAC"), Seq::empty()),
        derived_secret(prk, label("SessionKey"), digest),
    )
}

// ---------------------------------------------------------------------------
// The oblivious pseudorandom function
// ---------------------------------------------------------------------------

/// The blinding scalar that 64 random bytes determine.
pub open spec fn blind_scalar(random: Seq<u8>) -> nat {
    le_value(random) % group_order()
}

/// The group element of a password.
pub open spec fn password_element(password: Seq<u8>) -> Seq<u8> {
    ristretto_from_uniform(sha512(password))
}

/// The password element times the blinding scalar.
pub open spec fn blinded_element(password: Seq<u8>, blind: nat) -> Seq<u8> {
    ristretto_mul(password_element(password), blind)
}

/// The evaluation key of one client.
pub open spec fn oprf_key(oprf_seed: Seq<u8>, credential_identifier: Seq<u8>) -> nat {
    le_value(
        hkdf_sha512_expand(oprf_seed, credential_identifier + label("OprfKey"), 64),
    ) % group_order()
}

/// The output of the function: the digest of the unblinded evaluation.
pub open spec fn oprf_output(evaluated: Seq<u8>, blind: nat) -> Seq<u8> {
    sha512(ristretto_mul(evaluated, scalar_inverse(blind)))
}

/// Password stretching, which leaves its input as it is.
pub open spec fn stretched(msg: Seq<u8>) -> Seq<u8> {
    msg
}

/// The key from which the envelope keys and the client key pair come.
pub open spec fn randomized_password(output: Seq<u8>) -> Seq<u8> {
    hkdf_sha512_extract(Seq::empty(), output + stretched(output))
}

/// The randomized password that a client recovers from an evaluation.
pub open spec fn recovered_password(evaluated: Seq<u8>, blind: nat) -> Seq<u8> {
    randomized_password(oprf_output(evaluated, blind))
}

// ---------------------------------------------------------------------------
// The envelope
// ---------------------------------------------------------------------------

/// The key under which the record is masked.
pub open spec fn masking_key(rand_pwd: Seq<u8>) -> Seq<u8> {
    hkdf_sha512_expand(rand_pwd, label("MaskingKey"), NH as nat)
}

/// The key that authenticates the envelope.
pub open spec fn auth_key(rand_pwd: Seq<u8>, nonce: Seq<u8>) -> Seq<u8> {
    hkdf_sha512_expand(rand_pwd, nonce + label("AuthKey"), NH as nat)
}

/// The client-only key handed to the application.
pub open spec fn export_key(rand_pwd: Seq<u8>, nonce: Seq<u8>) -> Seq<u8> {
    hkdf_sha512_expand(rand_pwd, nonce + label("ExportKey"), NH as nat)
}

/// The client's static private scalar.
pub open spec fn client_private_key(rand_pwd: Seq<u8>, nonce: Seq<u8>) -> nat {
    seeded_private_key(hkdf_sha512_expand(rand_pwd, nonce + label("PrivateKey"), NSEED as nat))
}

/// What the envelope tag authenticates: the nonce, the server's public key, and
/// the two identities, each after its length.
pub open spec fn envelope_message(
    nonce: Seq<u8>,
    server_pk: Seq<u8>,
    server_identity: Seq<u8>,
    client_identity: Seq<u8>,
) -> Seq<u8> {
    nonce + server_pk + length_prefixed(server_identity) + length_prefixed(client_identity)
}

/// The tag of the envelope.
pub open spec fn envelope_tag(
    rand_pwd: Seq<u8>,
    nonce: Seq<u8>,
    server_pk: Seq<u8>,
    server_identity: Seq<u8>,
    client_identity: Seq<u8>,
) -> Seq<u8> {
    hmac_sha512(
        auth_key(rand_pwd, nonce),
        envelope_message(nonce, server_pk, server_identity, client_identity),
    )
}

// ---------------------------------------------------------------------------
// The transcript
// ---------------------------------------------------------------------------

/// KE1 on the wire.
pub open spec fn ke1_encoding(ke1: Ke1View) -> Seq<u8> {
    ke1.blinded_element + ke1.client_nonce + ke1.client_ephemeral_pk
}

/// The credential response within KE2, on the wire.
pub open spec fn credential_response_encoding(ke2: Ke2View) -> Seq<u8> {
    ke2.evaluated_element + ke2.envelope_nonce + ke2.envelope_auth_tag + ke2.server_public_key
}

/// The transcript of the handshake up to, and without, the server's MAC.
pub open spec fn preamble(
    client_identity: Seq<u8>,
    ke1: Ke1View,
    server_identity: Seq<u8>,
    ke2: Ke2View,
) -> Seq<u8> {
    label("OPAQUEv1-") + length_prefixed(Seq::empty()) + length_prefixed(client_identity)
        + ke1_encoding(ke1) + length_prefixed(server_identity) + credential_response_encoding(ke2)
        + ke2.server_nonce + ke2.server_ephemeral_pk
}

/// The server's MAC over a transcript.
pub open spec fn server_mac(km2: Seq<u8>, transcript: Seq<u8>) -> Seq<u8> {
    hmac_sha512(km2, sha512(transcript))
}

/// The client's MAC over a transcript and the server's MAC.
pub open spec fn client_mac(km3: Seq<u8>, transcript: Seq<u8>, server_mac: Seq<u8>) -> Seq<u8> {
    hmac_sha512(km3, sha512(transcript + server_mac))
}

// ---------------------------------------------------------------------------
// Registration
// ---------------------------------------------------------------------------

/// The long-lived parameters of a server.
pub struct ServerView {
    pub static_sk: nat,
    pub static_pk: Seq<u8>,
    pub oprf_seed: Seq<u8>,
    pub identity: Seq<u8>,
}

impl ServerView {
    /// The static keys belong together.
    pub open spec fn well_formed(self) -> bool {
        &&& is_key_pair(self.static_sk, self.static_pk)
        &&& self.oprf_seed.len() == NH
    }
}

/// The server that an identity and two seeds determine.
pub open spec fn seeded_server(
    identity: Seq<u8>,
    oprf_seed: Seq<u8>,
    key_seed: Seq<u8>,
) -> ServerView {
    let static_sk = le_value(key_seed) % group_order();
    ServerView { static_sk, static_pk: public_key(static_sk), oprf_seed, identity }
}

/// The first message of a registration.
pub open spec fn registration_request(password: Seq<u8>, blind: nat) -> RegistrationRequestView {
    RegistrationRequestView { blinded_element: blinded_element(password, blind) }
}

/// The server's evaluation of a blinded element.
pub open spec fn evaluated_element(
    server: ServerView,
    credential_identifier: Seq<u8>,
    blinded: Seq<u8>,
) -> Seq<u8> {
    ristretto_mul(blinded, oprf_key(server.oprf_seed, credential_identifier))
}

/// The server's answer to a registration request.
pub open spec fn registration_response(
    server: ServerView,
    credential_identifier: Seq<u8>,
    request: RegistrationRequestView,
) -> RegistrationResponseView {
    RegistrationResponseView {
        evaluated_element: evaluated_element(
            server,
            credential_identifier,
            request.blinded_element,
        ),
        server_public_key: server.static_pk,
    }
}

/// The record that a client hands to the server at the end of registration.
pub open spec fn registration_record(
    blind: nat,
    response: RegistrationResponseView,
    nonce: Seq<u8>,
    server_identity: Seq<u8>,
    client_identity: Seq<u8>,
) -> RegistrationRecordView {
    let rand_pwd = recovered_password(response.evaluated_element, blind);
    RegistrationRecordView {
        client_public_key: public_key(client_private_key(rand_pwd, nonce)),
        masking_key: masking_key(rand_pwd),
        envelope_nonce: nonce,
        envelope_auth_tag: envelope_tag(
            rand_pwd,
            nonce,
            response.server_public_key,
            server_identity,
            client_identity,
        ),
    }
}

// ---------------------------------------------------------------------------
// Login
// ---------------------------------------------------------------------------

/// What a client keeps between the two steps of a login.
pub struct ClientLoginView {
    pub blind: nat,
    pub client_ephemeral_sk: nat,
    pub ke1: Ke1View,
}

/// The state of a client after the first step of a login.
pub open spec fn client_login_state(
    password: Seq<u8>,
    blind: nat,
    client_nonce: Seq<u8>,
    keyshare_seed: Seq<u8>,
) -> ClientLoginView {
    let client_ephemeral_sk = seeded_private_key(keyshare_seed);
    ClientLoginView {
        blind,
        client_ephemeral_sk,
        ke1: Ke1View {
            blinded_element: blinded_element(password, blind),
            client_nonce,
            client_ephemeral_pk: public_key(client_ephemeral_sk),
        },
    }
}

/// The three shared elements as the server computes them: ephemeral with
/// ephemeral, static with ephemeral, ephemeral with static.
pub open spec fn server_key_material(
    static_sk: nat,
    ephemeral_sk: nat,
    client_ephemeral_pk: Seq<u8>,
    client_static_pk: Seq<u8>,
) -> Seq<u8> {
    ristretto_mul(client_ephemeral_pk, ephemeral_sk) + ristretto_mul(
        client_ephemeral_pk,
        static_sk,
    ) + ristretto_mul(client_static_pk, ephemeral_sk)
}

/// The three shared elements as the client computes them.
pub open spec fn client_key_material(
    static_sk: nat,
    ephemeral_sk: nat,
    server_ephemeral_pk: Seq<u8>,
    server_static_pk: Seq<u8>,
) -> Seq<u8> {
    ristretto_mul(server_ephemeral_pk, ephemeral_sk) + ristretto_mul(
        server_static_pk,
        ephemeral_sk,
    ) + ristretto_mul(server_ephemeral_pk, static_sk)
}

/// KE2 before the server's MAC is put in.
pub open spec fn unauthenticated_ke2(
    server: ServerView,
    credential_identifier: Seq<u8>,
    ke1: Ke1View,
    record: RegistrationRecordView,
    keyshare_seed: Seq<u8>,
    server_nonce: Seq<u8>,
) -> Ke2View {
    Ke2View {
        evaluated_element: evaluated_element(server, credential_identifier, ke1.blinded_element),
        envelope_nonce: record.envelope_nonce,
        envelope_auth_tag: record.envelope_auth_tag,
        server_public_key: server.static_pk,
        server_nonce,
        server_ephemeral_pk: public_key(seeded_private_key(keyshare_seed)),
        server_mac: Seq::new(NM as nat, |i: int| 0u8),
    }
}

/// What the server has after the first step of a login.
pub struct LoginResponse {
    pub ke2: Ke2View,
    pub expected_client_mac: Seq<u8>,
    pub session_key: Seq<u8>,
}

/// The server's answer to KE1, and what it keeps.
pub open spec fn login_response(
    server: ServerView,
    credential_identifier: Seq<u8>,
    ke1: Ke1View,
    record: RegistrationRecordView,
    client_identity: Seq<u8>,
    keyshare_seed: Seq<u8>,
    server_nonce: Seq<u8>,
) -> LoginResponse {
    let ke2 = unauthenticated_ke2(
        server,
        credential_identifier,
        ke1,
        record,
        keyshare_seed,
        server_nonce,
    );
    let transcript = preamble(client_identity, ke1, server.identity, ke2);
    let (km2, km3, session_key) = handshake_keys(
        server_key_material(
            server.static_sk,
            seeded_private_key(keyshare_seed),
            ke1.client_ephemeral_pk,
            record.client_public_key,
        ),
        transcript,
    );
    let mac = server_mac(km2, transcript);
    LoginResponse {
        ke2: Ke2View { server_mac: mac, ..ke2 },
        expected_client_mac: client_mac(km3, transcript, mac),
        session_key,
    }
}

/// What a client has after a login.
pub struct LoginOutcome {
    pub client_mac: Seq<u8>,
    pub session_key: Seq<u8>,
    pub export_key: Seq<u8>,
}

/// Whether the envelope in KE2 carries the tag that the password, the server's
/// public key and the two identities call for.
pub open spec fn envelope_opens(
    blind: nat,
    ke2: Ke2View,
    server_identity: Seq<u8>,
    client_identity: Seq<u8>,
) -> bool {
    ke2.envelope_auth_tag == envelope_tag(
        recovered_password(ke2.evaluated_element, blind),
        ke2.envelope_nonce,
        ke2.server_public_key,
        server_identity,
        client_identity,
    )
}

/// The keys that a client derives from KE2 once the envelope has opened.
pub open spec fn client_handshake_keys(
    state: ClientLoginView,
    ke2: Ke2View,
    server_identity: Seq<u8>,
    client_identity: Seq<u8>,
) -> (Seq<u8>, Seq<u8>, Seq<u8>) {
    let rand_pwd = recovered_password(ke2.evaluated_element, state.blind);
    handshake_keys(
        client_key_material(
            client_private_key(rand_pwd, ke2.envelope_nonce),
            state.client_ephemeral_sk,
            ke2.server_ephemeral_pk,
            ke2.server_public_key,
        ),
        preamble(client_identity, state.ke1, server_identity, ke2),
    )
}

/// What the second step of a login gives the client: an error when the envelope
/// does not open, another when the server's MAC is not the expected one, and
/// otherwise the client's MAC and the two keys.
pub open spec fn client_login_outcome(
    state: ClientLoginView,
    ke2: Ke2View,
    server_identity: Seq<u8>,
    client_identity: Seq<u8>,
) -> Result<LoginOutcome, OpaqueError> {
    let transcript = preamble(client_identity, state.ke1, server_identity, ke2);
    let (km2, km3, session_key) = client_handshake_keys(
        state,
        ke2,
        server_identity,
        client_identity,
    );
    if !envelope_opens(state.blind, ke2, server_identity, client_identity) {
        Err(OpaqueError::EnvelopeRecoveryError)
    } else if ke2.server_mac != server_mac(km2, transcript) {
        Err(OpaqueError::ServerAuthenticationError)
    } else {
        Ok(
            LoginOutcome {
                client_mac: client_mac(km3, transcript, ke2.server_mac),
                session_key,
                export_key: export_key(
                    recovered_password(ke2.evaluated_element, state.blind),
                    ke2.envelope_nonce,
                ),
            },
        )
    }
}

} // verus!
