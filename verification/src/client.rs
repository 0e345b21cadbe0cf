//! Stateless client-side OPAQUE functions.
//!
//! Call order:
//! 1. [`registration_start`]: send the [`RegistrationRequest`] to the server
//! 2. [`registration_finish`]: send the [`RegistrationRecord`] to the server, keep `export_key`
//!
//! 1. [`login_start`]: send [`Ke1`] to the server
//! 2. [`login_finish`]: send [`Ke3`] to the server, use `SessionKey` and `export_key`
//!
//! The functions draw their randomness themselves. Each has a counterpart whose
//! name ends in `_with`, which takes the random bytes as arguments, and those
//! that need well-encoded group elements in the messages they receive have a
//! counterpart whose name starts with `try_`, which checks for it.
use crate::bytes::{array32_at, concat, concat3, equal, to_array64};
use crate::group::{
    is_group_element, is_invertible, is_key_pair, ristretto_decodes, Scalar,
};
use crate::model;
use crate::model::{ClientLoginView, LoginOutcome};
use crate::server::SessionKey;
use crate::utils::{
    build_preamble, decompress, derive_dh_keypair, derive_keys, dh, envelope_mac_msg, hash,
    draw, hkdf_expand, is_draw, is_valid_element, mac_fn, oprf_blind_with, oprf_finalize,
    randomized_password,
};
use crate::wire_structs::{
    Ke1, Ke2, Ke3, RegistrationRecord, RegistrationRequest, RegistrationResponse,
};
use crate::{OpaqueError, NH, NN, NSEED};
use vstd::prelude::*;

verus! {

/// Ephemeral client state kept between [`login_start`] and [`login_finish`].
///
/// Must not be reused across login attempts.
pub struct ClientLoginState {
    /// OPRF blinding scalar. Combined with the server's evaluation in
    /// [`login_finish`] to recover the OPRF output.
    pub blind: Scalar,
    /// Client's ephemeral Diffie-Hellman scalar for the 3DH key exchange.
    pub client_ephemeral_sk: Scalar,
    /// The KE1 message sent to the server. Kept here so [`login_finish`]
    /// can include it in the transcript MAC without a second argument.
    pub ke1: Ke1,
}

impl View for ClientLoginState {
    type V = ClientLoginView;

    open spec fn view(&self) -> ClientLoginView {
        ClientLoginView {
            blind: self.blind@,
            client_ephemeral_sk: self.client_ephemeral_sk@,
            ke1: self.ke1@,
        }
    }
}

// ---------------------------------------------------------------------------
// Registration
// ---------------------------------------------------------------------------

/// Registration step 1 (client).
///
/// Hashes the password to a group element and applies a random blinding
/// scalar so the server learns nothing about the password.
///
/// # Returns
/// `(blind, request)`: `blind` must be passed to [`registration_finish`];
/// `request` is sent to the server.
pub fn registration_start(password: &[u8]) -> (started: (Scalar, RegistrationRequest))
    ensures
        exists|random: [u8; 64]| #[trigger]
            is_draw(random) && started.0@ == model::blind_scalar(random@),
        started.1@ == model::registration_request(password@, started.0@),
        is_group_element(model::password_element(password@)),
        is_group_element(started.1.blinded_element@),
{
    let random: [u8; 64] = draw();
    registration_start_with(password, &random)
}

/// [`registration_start`] with the random bytes of the blinding scalar given.
pub fn registration_start_with(password: &[u8], random: &[u8; 64]) -> (started: (
    Scalar,
    RegistrationRequest,
))
    ensures
        started.0@ == model::blind_scalar(random@),
        started.1@ == model::registration_request(password@, started.0@),
        is_group_element(model::password_element(password@)),
        is_group_element(started.1.blinded_element@),
{
    let (blind, blinded) = oprf_blind_with(password, random);
    (blind, RegistrationRequest { blinded_element: blinded.compress() })
}

/// Registration step 2 (client).
///
/// Finalizes the OPRF, derives envelope keys from the randomized password,
/// and constructs the [`RegistrationRecord`] the server will persist.
///
/// # Parameters
/// - `blind`: blinding scalar from [`registration_start`]
/// - `response`: [`RegistrationResponse`] received from the server
/// - `server_identity`: server's identity bytes (e.g. `b"example.com"`)
/// - `client_identity`: client's identity bytes (e.g. their username)
///
/// # Returns
/// `(record, export_key)`: send `record` to the server; `export_key` is a
/// 64-byte client-only secret derived from the password that the server never
/// sees. It can be used for end-to-end encrypted storage.
pub fn registration_finish(
    blind: &Scalar,
    response: &RegistrationResponse,
    server_identity: &[u8],
    client_identity: &[u8],
) -> (finished: (RegistrationRecord, [u8; NH]))
    requires
        ristretto_decodes(response.evaluated_element@),
    ensures
        registration_finished(
            blind@,
            response@,
            server_identity@,
            client_identity@,
            finished.0.envelope_nonce@,
            finished,
        ),
        is_draw(finished.0.envelope_nonce),
{
    let nonce: [u8; NN] = draw();
    registration_finish_with(blind, response, server_identity, client_identity, nonce)
}

/// What [`registration_finish`] returns when it draws `nonce`.
pub open spec fn registration_finished(
    blind: nat,
    response: crate::wire_structs::RegistrationResponseView,
    server_identity: Seq<u8>,
    client_identity: Seq<u8>,
    nonce: Seq<u8>,
    finished: (RegistrationRecord, [u8; NH]),
) -> bool {
    let rand_pwd = model::recovered_password(response.evaluated_element, blind);
    &&& finished.0@ == model::registration_record(
        blind,
        response,
        nonce,
        server_identity,
        client_identity,
    )
    &&& finished.1@ == model::export_key(rand_pwd, nonce)
    &&& is_key_pair(model::client_private_key(rand_pwd, nonce), finished.0.client_public_key@)
    &&& blind != 0 ==> is_invertible(blind)
}

/// [`registration_finish`] with the envelope nonce given.
pub fn registration_finish_with(
    blind: &Scalar,
    response: &RegistrationResponse,
    server_identity: &[u8],
    client_identity: &[u8],
    nonce: [u8; NN],
) -> (finished: (RegistrationRecord, [u8; NH]))
    requires
        ristretto_decodes(response.evaluated_element@),
    ensures
        registration_finished(
            blind@,
            response@,
            server_identity@,
            client_identity@,
            nonce@,
            finished,
        ),
        finished.0.envelope_nonce == nonce,
{
    let evaluated = decompress(&response.evaluated_element);
    let oprf_output = oprf_finalize(&evaluated, blind);
    let rand_pwd = randomized_password(&oprf_output);

    let masking_key_vec = hkdf_expand(&rand_pwd, "MaskingKey".as_bytes(), NH);
    let auth_key = hkdf_expand(&rand_pwd, &concat(&nonce, "AuthKey".as_bytes()), NH);
    let export_key_vec = hkdf_expand(&rand_pwd, &concat(&nonce, "ExportKey".as_bytes()), NH);
    let pk_seed = hkdf_expand(&rand_pwd, &concat(&nonce, "PrivateKey".as_bytes()), NSEED);

    let (_client_sk, client_pk) = derive_dh_keypair(&pk_seed);

    let mac_msg = envelope_mac_msg(
        &nonce,
        &response.server_public_key,
        server_identity,
        client_identity,
    );
    let auth_tag = mac_fn(&auth_key, &mac_msg);

    let record = RegistrationRecord {
        client_public_key: client_pk.compress(),
        masking_key: to_array64(&masking_key_vec),
        envelope_nonce: nonce,
        envelope_auth_tag: auth_tag,
    };
    (record, to_array64(&export_key_vec))
}

/// [`registration_finish`], or `None` when the evaluated element in `response`
/// is not the encoding of a group element.
pub fn try_registration_finish(
    blind: &Scalar,
    response: &RegistrationResponse,
    server_identity: &[u8],
    client_identity: &[u8],
) -> (finished: Option<(RegistrationRecord, [u8; NH])>)
    ensures
        finished is Some <==> ristretto_decodes(response.evaluated_element@),
        finished matches Some(f) ==> registration_finished(
            blind@,
            response@,
            server_identity@,
            client_identity@,
            f.0.envelope_nonce@,
            f,
        ) && is_draw(f.0.envelope_nonce),
{
    if is_valid_element(&response.evaluated_element) {
        Some(registration_finish(blind, response, server_identity, client_identity))
    } else {
        None
    }
}

// ---------------------------------------------------------------------------
// Login
// ---------------------------------------------------------------------------

/// What [`login_start`] returns when it draws these random bytes.
pub open spec fn login_started(
    password: Seq<u8>,
    random: Seq<u8>,
    client_nonce: Seq<u8>,
    keyshare_seed: Seq<u8>,
    state: ClientLoginView,
) -> bool {
    &&& state == model::client_login_state(
        password,
        model::blind_scalar(random),
        client_nonce,
        keyshare_seed,
    )
    &&& is_group_element(model::password_element(password))
    &&& is_group_element(state.ke1.blinded_element)
    &&& is_key_pair(state.client_ephemeral_sk, state.ke1.client_ephemeral_pk)
}

/// Login step 1 (client).
///
/// Blinds the password and generates an ephemeral keypair for the 3DH
/// key exchange.
///
/// # Returns
/// [`ClientLoginState`] containing `ke1` to send to the server and the
/// ephemeral secrets needed in [`login_finish`].
pub fn login_start(password: &[u8]) -> (state: ClientLoginState)
    ensures
        exists|random: [u8; 128]| #[trigger]
            is_draw(random) && login_started(
                password@,
                random@.subrange(0, 64),
                random@.subrange(64, 96),
                random@.subrange(96, 128),
                state@,
            ),
{
    let random: [u8; 128] = draw();
    let blind: [u8; 64] = to_array64(vstd::slice::slice_subrange(&random, 0, 64));
    let client_nonce: [u8; NN] = array32_at(&random, 64);
    let keyshare_seed: [u8; NSEED] = array32_at(&random, 96);
    login_start_with(password, &blind, client_nonce, &keyshare_seed)
}

/// [`login_start`] with the random bytes of the blinding scalar, the nonce and
/// the seed of the ephemeral keys given.
pub fn login_start_with(
    password: &[u8],
    random: &[u8; 64],
    client_nonce: [u8; NN],
    keyshare_seed: &[u8; NSEED],
) -> (state: ClientLoginState)
    ensures
        login_started(password@, random@, client_nonce@, keyshare_seed@, state@),
{
    let (blind, blinded) = oprf_blind_with(password, random);
    let (client_ephemeral_sk, client_ephemeral_pk) = derive_dh_keypair(keyshare_seed);
    let ke1 = Ke1 {
        blinded_element: blinded.compress(),
        client_nonce,
        client_ephemeral_pk: client_ephemeral_pk.compress(),
    };
    ClientLoginState { blind, client_ephemeral_sk, ke1 }
}

/// Recovers the credentials from the envelope in KE2: the client's static
/// private key and the export key, if the envelope's tag is the expected one.
fn open_envelope(
    blind: &Scalar,
    ke2: &Ke2,
    server_identity: &[u8],
    client_identity: &[u8],
) -> (opened: Option<(Scalar, [u8; NH])>)
    requires
        ristretto_decodes(ke2.evaluated_element@),
    ensures
        opened is Some <==> model::envelope_opens(
            blind@,
            ke2@,
            server_identity@,
            client_identity@,
        ),
        opened matches Some((client_sk, export_key)) ==> {
            let rand_pwd = model::recovered_password(ke2.evaluated_element@, blind@);
            &&& client_sk@ == model::client_private_key(rand_pwd, ke2.envelope_nonce@)
            &&& export_key@ == model::export_key(rand_pwd, ke2.envelope_nonce@)
        },
        blind@ != 0 ==> is_invertible(blind@),
{
    let evaluated = decompress(&ke2.evaluated_element);
    let oprf_output = oprf_finalize(&evaluated, blind);
    let rand_pwd = randomized_password(&oprf_output);

    let auth_key = hkdf_expand(&rand_pwd, &concat(&ke2.envelope_nonce, "AuthKey".as_bytes()), NH);
    let export_key_vec = hkdf_expand(
        &rand_pwd,
        &concat(&ke2.envelope_nonce, "ExportKey".as_bytes()),
        NH,
    );
    let pk_seed = hkdf_expand(
        &rand_pwd,
        &concat(&ke2.envelope_nonce, "PrivateKey".as_bytes()),
        NSEED,
    );
    let (client_sk, _client_pk) = derive_dh_keypair(&pk_seed);

    let mac_msg = envelope_mac_msg(
        &ke2.envelope_nonce,
        &ke2.server_public_key,
        server_identity,
        client_identity,
    );
    let expected_tag = mac_fn(&auth_key, &mac_msg);
    if equal(&ke2.envelope_auth_tag, &expected_tag) {
        Some((client_sk, to_array64(&export_key_vec)))
    } else {
        None
    }
}

/// Whether a result of [`login_finish`] is the one that `outcome` describes.
pub open spec fn login_result(
    finished: Result<(Ke3, SessionKey, [u8; NH]), OpaqueError>,
    outcome: Result<LoginOutcome, OpaqueError>,
) -> bool {
    match outcome {
        Ok(o) => finished matches Ok((ke3, session_key, export_key)) && ke3.client_mac@
            == o.client_mac && session_key.0@ == o.session_key && export_key@ == o.export_key,
        Err(e) => finished matches Err(f) && f == e,
    }
}

/// Login step 2 (client).
///
/// Recovers credentials from the envelope, performs the 3DH key exchange,
/// verifies the server MAC, and produces the client MAC.
///
/// # Parameters
/// - `state`: [`ClientLoginState`] from [`login_start`]
/// - `ke2`: [`Ke2`] received from the server
/// - `server_identity`: must match what was used during registration
/// - `client_identity`: must match what was used during registration
///
/// # Errors
/// - [`OpaqueError::EnvelopeRecoveryError`]: wrong password
/// - [`OpaqueError::ServerAuthenticationError`]: server MAC did not verify
///
/// # Returns
/// `(ke3, session_key, export_key)`: send `ke3` to the server;
/// `session_key` matches the server's [`SessionKey`] after its own last step;
/// `export_key` matches the one from [`registration_finish`].
pub fn login_finish(
    state: ClientLoginState,
    ke2: &Ke2,
    server_identity: &[u8],
    client_identity: &[u8],
) -> (finished: Result<(Ke3, SessionKey, [u8; NH]), OpaqueError>)
    requires
        ristretto_decodes(ke2.evaluated_element@),
        model::envelope_opens(state.blind@, ke2@, server_identity@, client_identity@) ==> {
            &&& ristretto_decodes(ke2.server_ephemeral_pk@)
            &&& ristretto_decodes(ke2.server_public_key@)
        },
    ensures
        login_result(
            finished,
            model::client_login_outcome(state@, ke2@, server_identity@, client_identity@),
        ),
        state.blind@ != 0 ==> is_invertible(state.blind@),
{
    let (client_sk, export_key) = match open_envelope(
        &state.blind,
        ke2,
        server_identity,
        client_identity,
    ) {
        Some(opened) => opened,
        None => return Err(OpaqueError::EnvelopeRecoveryError),
    };

    // 3DH, client perspective:
    //   dh1 = client_ephemeral_sk x server_ephemeral_pk  (ephemeral-ephemeral)
    //   dh2 = client_ephemeral_sk x server_static_pk     (ephemeral-static)
    //   dh3 = client_static_sk    x server_ephemeral_pk  (static-ephemeral)
    let server_ephemeral_pk = decompress(&ke2.server_ephemeral_pk);
    let server_static_pk = decompress(&ke2.server_public_key);
    let dh1 = dh(&state.client_ephemeral_sk, &server_ephemeral_pk);
    let dh2 = dh(&state.client_ephemeral_sk, &server_static_pk);
    let dh3 = dh(&client_sk, &server_ephemeral_pk);
    let ikm = concat3(&dh1, &dh2, &dh3);

    let preamble = build_preamble(client_identity, &state.ke1, server_identity, ke2);
    let (km2, km3, session_key) = derive_keys(&ikm, &preamble);

    let expected_server_mac = mac_fn(&km2, &hash(&preamble));
    if !equal(&ke2.server_mac, &expected_server_mac) {
        return Err(OpaqueError::ServerAuthenticationError);
    }
    let client_mac = mac_fn(&km3, &hash(&concat(&preamble, &expected_server_mac)));
    Ok((Ke3 { client_mac }, SessionKey(session_key), export_key))
}

/// [`login_finish`], or `None` when a group element that it would read from
/// `ke2` is not well encoded: the evaluated element, and the server's two public
/// keys once the envelope has opened.
pub fn try_login_finish(
    state: ClientLoginState,
    ke2: &Ke2,
    server_identity: &[u8],
    client_identity: &[u8],
) -> (finished: Option<Result<(Ke3, SessionKey, [u8; NH]), OpaqueError>>)
    ensures
        finished is Some <==> {
            &&& ristretto_decodes(ke2.evaluated_element@)
            &&& model::envelope_opens(state.blind@, ke2@, server_identity@, client_identity@) ==> {
                &&& ristretto_decodes(ke2.server_ephemeral_pk@)
                &&& ristretto_decodes(ke2.server_public_key@)
            }
        },
        finished matches Some(f) ==> login_result(
            f,
            model::client_login_outcome(state@, ke2@, server_identity@, client_identity@),
        ),
{
    if !is_valid_element(&ke2.evaluated_element) {
        return None;
    }
    let opens = open_envelope(&state.blind, ke2, server_identity, client_identity).is_some();
    if opens && !(is_valid_element(&ke2.server_ephemeral_pk) && is_valid_element(
        &ke2.server_public_key,
    )) {
        return None;
    }
    Some(login_finish(state, ke2, server_identity, client_identity))
}

} // verus!
