//! What holds of the protocol as a whole, over the messages, keys and session
//! steps that the contracts of the other modules speak of.
use crate::bytes::{label, length_prefixed, u16_be};
use crate::client::{login_result, login_started, registration_finished};
use crate::group::{
    generates, group_order, is_group_element, is_invertible, is_key_pair, le_value,
    lemma_group_order_bound, multiplies, ristretto_basepoint, ristretto_identity, ristretto_mul,
    scalar_inverse, separates,
};
use crate::jwt::{
    carries, claims_bytes, claims_hold, has_claims, jwt_audiences, jwt_expiry, jwt_header_decodes,
    jwt_message, jwt_signature, jwt_token, law_claims_unique, JwtError, JwtHeader,
};
use crate::model;
use crate::model::{ClientLoginView, LoginOutcome, ServerView};
use crate::server::{
    accepted, login_finish_step, login_start_step, registration_finish_step,
    registration_start_step, verified_at, SessionKey, SessionPhase, SessionView,
};
use crate::wire_structs::{
    Ke1View, Ke2, Ke2View, Ke3, RegistrationRecord, RegistrationRecordView,
    RegistrationRequestView, RegistrationResponse,
};
use crate::{OpaqueError, NH};
use vstd::prelude::*;

verus! {

// ---------------------------------------------------------------------------
// The group
// ---------------------------------------------------------------------------

/// The inverse of an invertible scalar is a scalar, and multiplying by a scalar,
/// a key and the scalar's inverse is multiplying by the key.
pub(crate) proof fn lemma_unblinding(blind: nat, key: nat)
    requires
        is_invertible(blind),
        key < group_order(),
    ensures
        scalar_inverse(blind) < group_order(),
        (((blind * key) % group_order()) * scalar_inverse(blind)) % group_order() == key,
{
    lemma_group_order_bound();
    let l = group_order();
    let inv = scalar_inverse(blind);
    assert(inv < l) by {
        assert(blind != 0) by {
            assert(0 * inv == 0);
        }
        let t = (inv as int % l as int) as nat;
        vstd::arithmetic::div_mod::lemma_mul_mod_noop_right(blind as int, inv as int, l as int);
        assert(t < l && (blind * t) % l == 1);
    }
    assert((((blind * key) % l) * inv) % l == key) by {
        vstd::arithmetic::div_mod::lemma_mul_mod_noop_left(
            (blind * key) as int,
            inv as int,
            l as int,
        );
        assert((blind * key) * inv == (blind * inv) * key) by (nonlinear_arith);
        vstd::arithmetic::div_mod::lemma_mul_mod_noop_left(
            (blind * inv) as int,
            key as int,
            l as int,
        );
        assert(1 * key == key);
        vstd::arithmetic::div_mod::lemma_small_mod(key, l);
    }
}

/// Multiplying an element twice is multiplying it by the product.
pub(crate) proof fn lemma_multiplies(p: Seq<u8>, a: nat, b: nat)
    requires
        is_group_element(p),
        a < group_order(),
        b < group_order(),
    ensures
        ristretto_mul(ristretto_mul(p, a), b) == ristretto_mul(p, (a * b) % group_order()),
{
    assert(multiplies(p, a, b)) by {
        reveal(is_group_element);
    }
    reveal(multiplies);
}

/// Blinding cancels: blinding a password, evaluating with a key and unblinding
/// gives the password element times the key, whatever the blinding scalar.
pub proof fn law_blinding_cancels(password: Seq<u8>, blind: nat, key: nat)
    requires
        is_group_element(model::password_element(password)),
        blind < group_order(),
        is_invertible(blind),
        key < group_order(),
    ensures
        ristretto_mul(
            ristretto_mul(model::blinded_element(password, blind), key),
            scalar_inverse(blind),
        ) == ristretto_mul(model::password_element(password), key),
{
    lemma_group_order_bound();
    lemma_unblinding(blind, key);
    let p = model::password_element(password);
    let product = (blind * key) % group_order();
    lemma_multiplies(p, blind, key);
    lemma_multiplies(p, product, scalar_inverse(blind));
}

/// Different scalars give different multiples of an element that is not neutral.
pub(crate) proof fn lemma_separates(p: Seq<u8>, a: nat, b: nat)
    requires
        is_group_element(p),
        p != ristretto_identity(),
        a < group_order(),
        b < group_order(),
        ristretto_mul(p, a) == ristretto_mul(p, b),
    ensures
        a == b,
{
    assert(separates(p, a, b)) by {
        reveal(is_group_element);
    }
    reveal(separates);
}

/// Multiplying by an invertible scalar keeps elements apart.
pub(crate) proof fn lemma_invertible_multiple(p: Seq<u8>, q: Seq<u8>, key: nat)
    requires
        is_group_element(p),
        is_group_element(q),
        key < group_order(),
        is_invertible(key),
        ristretto_mul(p, key) == ristretto_mul(q, key),
    ensures
        p == q,
{
    lemma_group_order_bound();
    lemma_unblinding(key, 0);
    lemma_multiplies(p, key, scalar_inverse(key));
    lemma_multiplies(q, key, scalar_inverse(key));
    reveal(is_group_element);
}

/// The numbers below this are those that `len` bytes can denote.
spec fn byte_range(len: nat) -> nat
    decreases len,
{
    if len == 0 {
        1
    } else {
        256 * byte_range((len - 1) as nat)
    }
}

/// Every number in range is what some bytes denote.
proof fn lemma_bytes_of(n: nat, len: nat) -> (bytes: Seq<u8>)
    requires
        n < byte_range(len),
    ensures
        bytes.len() == len,
        le_value(bytes) == n,
    decreases len,
{
    if len == 0 {
        Seq::empty()
    } else {
        let rest = lemma_bytes_of(n / 256, (len - 1) as nat);
        let bytes = seq![(n % 256) as u8] + rest;
        assert(bytes.drop_first() =~= rest);
        bytes
    }
}

/// Eight more bytes denote 2^64 times as many numbers.
proof fn lemma_eight_more_bytes(len: nat)
    ensures
        byte_range(len + 8) == 0x1_0000_0000_0000_0000 * byte_range(len),
{
    reveal_with_fuel(byte_range, 9);
}

/// Scalars fit into 64 bytes.
proof fn lemma_scalars_fit()
    ensures
        group_order() <= byte_range(64),
{
    reveal(group_order);
    lemma_eight_more_bytes(0);
    lemma_eight_more_bytes(8);
    lemma_eight_more_bytes(16);
    lemma_eight_more_bytes(24);
    lemma_byte_range_grows(32, 64);
}

/// More bytes denote more numbers.
proof fn lemma_byte_range_grows(short: nat, long: nat)
    requires
        short <= long,
    ensures
        byte_range(short) <= byte_range(long),
    decreases long,
{
    if short < long {
        lemma_byte_range_grows(short, (long - 1) as nat);
    }
}

/// Every scalar is the blinding scalar of some 64 random bytes.
pub proof fn law_every_scalar_can_be_drawn(blind: nat)
    requires
        blind < group_order(),
    ensures
        exists|random: Seq<u8>|
            random.len() == 64 && #[trigger] model::blind_scalar(random) == blind,
{
    lemma_scalars_fit();
    let random = lemma_bytes_of(blind, 64);
    vstd::arithmetic::div_mod::lemma_small_mod(blind, group_order());
    assert(model::blind_scalar(random) == blind);
}

/// The blinded element tells nothing about the password: whatever the password
/// and the blinding scalar, every other password whose element is not the neutral
/// one has exactly one blinding scalar that gives the same blinded element, and that
/// scalar can be drawn.
pub proof fn law_blinding_hides_password(password: Seq<u8>, blind: nat, other: Seq<u8>)
    requires
        is_group_element(model::password_element(password)),
        is_group_element(model::password_element(other)),
        model::password_element(other) != ristretto_identity(),
        blind < group_order(),
    ensures
        exists|random: Seq<u8>|
            random.len() == 64 && fits(
                other,
                #[trigger] model::blind_scalar(random),
                password,
                blind,
            ),
        forall|b1: nat, b2: nat| #[trigger]
            fits(other, b1, password, blind) && #[trigger] fits(other, b2, password, blind) ==> b1
                == b2,
{
    lemma_group_order_bound();
    let p = model::password_element(password);
    let q = model::password_element(other);
    assert(generates(q, p)) by {
        reveal(is_group_element);
    }
    reveal(generates);
    let t = choose|t: nat| t < group_order() && p == #[trigger] ristretto_mul(q, t);
    let other_blind = (t * blind) % group_order();
    lemma_multiplies(q, t, blind);
    law_every_scalar_can_be_drawn(other_blind);
    let random = choose|random: Seq<u8>|
        random.len() == 64 && #[trigger] model::blind_scalar(random) == other_blind;
    assert(fits(other, model::blind_scalar(random), password, blind));
    assert forall|b1: nat, b2: nat| #[trigger]
        fits(other, b1, password, blind) && #[trigger] fits(
            other,
            b2,
            password,
            blind,
        ) implies b1 == b2 by {
        lemma_separates(q, b1, b2);
    }
}

/// Whether one password with one blinding scalar gives the blinded element of another
/// password with another scalar.
pub open spec fn fits(other: Seq<u8>, other_blind: nat, password: Seq<u8>, blind: nat) -> bool {
    &&& other_blind < group_order()
    &&& model::blinded_element(other, other_blind) == model::blinded_element(password, blind)
}

/// Diffie-Hellman: both owners of two key pairs compute the same element.
pub proof fn law_shared_element_agrees(sk1: nat, pk1: Seq<u8>, sk2: nat, pk2: Seq<u8>)
    requires
        is_key_pair(sk1, pk1),
        is_key_pair(sk2, pk2),
    ensures
        ristretto_mul(pk2, sk1) == ristretto_mul(pk1, sk2),
{
    reveal(is_key_pair);
    assert(ristretto_mul(pk2, sk1) == ristretto_mul(
        ristretto_basepoint(),
        (sk2 * sk1) % group_order(),
    ));
    assert(ristretto_mul(pk1, sk2) == ristretto_mul(
        ristretto_basepoint(),
        (sk1 * sk2) % group_order(),
    ));
    assert(sk2 * sk1 == sk1 * sk2) by (nonlinear_arith);
}

/// The three exchanges give client and server the same key material.
pub proof fn law_key_material_agrees(
    client_sk: nat,
    client_pk: Seq<u8>,
    client_ephemeral_sk: nat,
    client_ephemeral_pk: Seq<u8>,
    server_sk: nat,
    server_pk: Seq<u8>,
    server_ephemeral_sk: nat,
    server_ephemeral_pk: Seq<u8>,
)
    requires
        is_key_pair(client_sk, client_pk),
        is_key_pair(client_ephemeral_sk, client_ephemeral_pk),
        is_key_pair(server_sk, server_pk),
        is_key_pair(server_ephemeral_sk, server_ephemeral_pk),
    ensures
        model::client_key_material(client_sk, client_ephemeral_sk, server_ephemeral_pk, server_pk)
            == model::server_key_material(
            server_sk,
            server_ephemeral_sk,
            client_ephemeral_pk,
            client_pk,
        ),
{
    law_shared_element_agrees(
        client_ephemeral_sk,
        client_ephemeral_pk,
        server_ephemeral_sk,
        server_ephemeral_pk,
    );
    law_shared_element_agrees(client_ephemeral_sk, client_ephemeral_pk, server_sk, server_pk);
    law_shared_element_agrees(client_sk, client_pk, server_ephemeral_sk, server_ephemeral_pk);
}

// ---------------------------------------------------------------------------
// Key derivation
// ---------------------------------------------------------------------------

/// A shorter output of HKDF-Expand is a prefix of a longer one.
pub proof fn law_expand_prefix(prk: Seq<u8>, info: Seq<u8>, short: nat, long: nat)
    requires
        short <= long,
    ensures
        model::hkdf_sha512_expand(prk, info, short) == model::hkdf_sha512_expand(
            prk,
            info,
            long,
        ).take(short as int),
{
    reveal(model::hkdf_sha512_expand);
    assert(model::hkdf_sha512_expand(prk, info, short) =~= model::hkdf_sha512_expand(
        prk,
        info,
        long,
    ).take(short as int));
}

/// HKDF-Extract does not see zeros at the end of a salt that fits into a block.
pub proof fn law_extract_pads_salt(salt: Seq<u8>, zeros: nat, ikm: Seq<u8>)
    requires
        salt.len() + zeros <= 128,
    ensures
        model::hkdf_sha512_extract(salt + Seq::new(zeros, |i: int| 0u8), ikm)
            == model::hkdf_sha512_extract(salt, ikm),
{
    reveal(model::hmac_sha512);
    assert(model::hmac_block(salt + Seq::new(zeros, |i: int| 0u8)) =~= model::hmac_block(salt));
}

/// HKDF-Extract with an empty salt is HKDF-Extract with 64 zeros.
pub proof fn law_extract_empty_salt(ikm: Seq<u8>)
    ensures
        model::hkdf_sha512_extract(Seq::empty(), ikm) == model::hkdf_sha512_extract(
            Seq::new(64, |i: int| 0u8),
            ikm,
        ),
{
    law_extract_pads_salt(Seq::empty(), 64, ikm);
    assert(Seq::<u8>::empty() + Seq::new(64, |i: int| 0u8) =~= Seq::new(64, |i: int| 0u8));
}

// ---------------------------------------------------------------------------
// The password
// ---------------------------------------------------------------------------

/// The randomized password of a client, as a function of the password alone for
/// one evaluation key.
pub open spec fn password_key(password: Seq<u8>, key: nat) -> Seq<u8> {
    model::randomized_password(
        model::sha512(ristretto_mul(model::password_element(password), key)),
    )
}

/// A client recovers the same randomized password in every run: it depends on the
/// password and on the server's key for the client, not on the blinding scalar.
pub proof fn law_recovered_password(
    server: ServerView,
    credential_identifier: Seq<u8>,
    password: Seq<u8>,
    blind: nat,
)
    requires
        is_group_element(model::password_element(password)),
        blind < group_order(),
        is_invertible(blind),
    ensures
        model::recovered_password(
            model::evaluated_element(
                server,
                credential_identifier,
                model::blinded_element(password, blind),
            ),
            blind,
        ) == password_key(password, model::oprf_key(server.oprf_seed, credential_identifier)),
{
    law_blinding_cancels(
        password,
        blind,
        model::oprf_key(server.oprf_seed, credential_identifier),
    );
}

/// Two registrations of one password: the masking key is the same whatever the nonces,
/// the identities and the blinding scalars, and with one envelope nonce the export key
/// and the client's public key are the same whatever the identities and the blinding
/// scalars.
pub proof fn law_registration_keys_come_from_the_password(
    server: ServerView,
    credential_identifier: Seq<u8>,
    password: Seq<u8>,
    blind1: nat,
    nonce1: Seq<u8>,
    server_identity1: Seq<u8>,
    client_identity1: Seq<u8>,
    finished1: (RegistrationRecord, [u8; NH]),
    blind2: nat,
    nonce2: Seq<u8>,
    server_identity2: Seq<u8>,
    client_identity2: Seq<u8>,
    finished2: (RegistrationRecord, [u8; NH]),
)
    requires
        is_group_element(model::password_element(password)),
        blind1 < group_order(),
        is_invertible(blind1),
        blind2 < group_order(),
        is_invertible(blind2),
        registration_finished(
            blind1,
            model::registration_response(
                server,
                credential_identifier,
                model::registration_request(password, blind1),
            ),
            server_identity1,
            client_identity1,
            nonce1,
            finished1,
        ),
        registration_finished(
            blind2,
            model::registration_response(
                server,
                credential_identifier,
                model::registration_request(password, blind2),
            ),
            server_identity2,
            client_identity2,
            nonce2,
            finished2,
        ),
    ensures
        finished1.0.masking_key@ == finished2.0.masking_key@,
        nonce1 == nonce2 ==> finished1.1@ == finished2.1@,
        nonce1 == nonce2 ==> finished1.0.client_public_key@ == finished2.0.client_public_key@,
{
    law_recovered_password(server, credential_identifier, password, blind1);
    law_recovered_password(server, credential_identifier, password, blind2);
    assert(finished1.0@.masking_key == finished2.0@.masking_key);
    if nonce1 == nonce2 {
        assert(finished1.0@.client_public_key == finished2.0@.client_public_key);
    }
}

/// With one envelope nonce a client registers the same record and has the same export
/// key whatever the blinding scalar.
pub proof fn law_record_does_not_depend_on_blind(
    server: ServerView,
    credential_identifier: Seq<u8>,
    server_identity: Seq<u8>,
    client_identity: Seq<u8>,
    password: Seq<u8>,
    nonce: Seq<u8>,
    blind1: nat,
    blind2: nat,
    finished1: (RegistrationRecord, [u8; NH]),
    finished2: (RegistrationRecord, [u8; NH]),
)
    requires
        is_group_element(model::password_element(password)),
        blind1 < group_order(),
        is_invertible(blind1),
        blind2 < group_order(),
        is_invertible(blind2),
        registration_finished(
            blind1,
            model::registration_response(
                server,
                credential_identifier,
                model::registration_request(password, blind1),
            ),
            server_identity,
            client_identity,
            nonce,
            finished1,
        ),
        registration_finished(
            blind2,
            model::registration_response(
                server,
                credential_identifier,
                model::registration_request(password, blind2),
            ),
            server_identity,
            client_identity,
            nonce,
            finished2,
        ),
    ensures
        finished1.0@ == finished2.0@,
        finished1.1@ == finished2.1@,
{
    law_recovered_password(server, credential_identifier, password, blind1);
    law_recovered_password(server, credential_identifier, password, blind2);
}

// ---------------------------------------------------------------------------
// Registration and login
// ---------------------------------------------------------------------------

/// A registration followed by a login with the same password and identities: the
/// client accepts KE2, its MAC is the one that the server expects, both sides have
/// the same session key, and the client has the export key of the registration
/// again. The blinding scalars must be invertible, which all but zero are.
pub proof fn law_login_agrees(
    server: ServerView,
    credential_identifier: Seq<u8>,
    client_identity: Seq<u8>,
    password: Seq<u8>,
    registration_blind: nat,
    envelope_nonce: Seq<u8>,
    login_blind: nat,
    client_nonce: Seq<u8>,
    client_seed: Seq<u8>,
    server_seed: Seq<u8>,
    server_nonce: Seq<u8>,
)
    requires
        server.well_formed(),
        is_group_element(model::password_element(password)),
        registration_blind < group_order(),
        is_invertible(registration_blind),
        login_blind < group_order(),
        is_invertible(login_blind),
        has_key_pair(client_seed),
        has_key_pair(server_seed),
        ({
            let response = model::registration_response(
                server,
                credential_identifier,
                model::registration_request(password, registration_blind),
            );
            let rand_pwd = model::recovered_password(
                response.evaluated_element,
                registration_blind,
            );
            let client_sk = model::client_private_key(rand_pwd, envelope_nonce);
            is_key_pair(client_sk, model::public_key(client_sk))
        }),
    ensures
        ({
            let response = model::registration_response(
                server,
                credential_identifier,
                model::registration_request(password, registration_blind),
            );
            let record = model::registration_record(
                registration_blind,
                response,
                envelope_nonce,
                server.identity,
                client_identity,
            );
            let state = model::client_login_state(password, login_blind, client_nonce, client_seed);
            let login = model::login_response(
                server,
                credential_identifier,
                state.ke1,
                record,
                client_identity,
                server_seed,
                server_nonce,
            );
            let rand_pwd = model::recovered_password(
                response.evaluated_element,
                registration_blind,
            );
            model::client_login_outcome(state, login.ke2, server.identity, client_identity) == Ok::<
                LoginOutcome,
                OpaqueError,
            >(
                LoginOutcome {
                    client_mac: login.expected_client_mac,
                    session_key: login.session_key,
                    export_key: model::export_key(rand_pwd, envelope_nonce),
                },
            )
        }),
{
    law_recovered_password(server, credential_identifier, password, registration_blind);
    law_recovered_password(server, credential_identifier, password, login_blind);
    let key = model::oprf_key(server.oprf_seed, credential_identifier);
    let client_sk = model::client_private_key(password_key(password, key), envelope_nonce);
    let client_ephemeral_sk = model::seeded_private_key(client_seed);
    let server_ephemeral_sk = model::seeded_private_key(server_seed);
    law_key_material_agrees(
        client_sk,
        model::public_key(client_sk),
        client_ephemeral_sk,
        model::public_key(client_ephemeral_sk),
        server.static_sk,
        server.static_pk,
        server_ephemeral_sk,
        model::public_key(server_ephemeral_sk),
    );
}

/// The whole flow, over what the contracts of its calls promise: registering with
/// one session and logging in with another, with the same password and identities
/// and with nonzero blinding scalars, succeeds on both sides, gives both the same
/// session key and the client the export key of the registration, and completes
/// the session.
pub proof fn law_registration_then_login(
    password: Seq<u8>,
    client_identity: Seq<u8>,
    registration: SessionView,
    registration_after: SessionView,
    registration_blind: nat,
    response: Result<RegistrationResponse, OpaqueError>,
    finished: (RegistrationRecord, [u8; NH]),
    login: SessionView,
    login_after: SessionView,
    login_closed: SessionView,
    random: Seq<u8>,
    client_nonce: Seq<u8>,
    client_seed: Seq<u8>,
    state: ClientLoginView,
    server_seed: Seq<u8>,
    server_nonce: Seq<u8>,
    ke2: Result<Ke2, OpaqueError>,
    client_result: Result<(Ke3, SessionKey, [u8; NH]), OpaqueError>,
    server_result: Result<SessionKey, OpaqueError>,
)
    requires
        registration.phase is Idle,
        login == registration,
        registration.server.well_formed(),
        // client::registration_start
        is_group_element(model::password_element(password)),
        0 < registration_blind < group_order(),
        // OpaqueSession::registration_start
        registration_start_step(
            registration,
            model::registration_request(password, registration_blind),
            registration_after,
            response,
        ),
        // client::registration_finish
        registration_finished(
            registration_blind,
            response->Ok_0@,
            registration.server.identity,
            client_identity,
            finished.0.envelope_nonce@,
            finished,
        ),
        // client::login_start
        login_started(password, random, client_nonce, client_seed, state),
        state.blind != 0,
        // OpaqueSession::login_start
        login_start_step(
            login,
            state.ke1,
            finished.0@,
            client_identity,
            server_seed,
            server_nonce,
            login_after,
            ke2,
        ),
        // client::login_finish
        login_result(
            client_result,
            model::client_login_outcome(
                state,
                ke2->Ok_0@,
                registration.server.identity,
                client_identity,
            ),
        ),
        state.blind != 0 ==> is_invertible(state.blind),
        // OpaqueSession::login_finish
        login_finish_step(
            login_after,
            client_result->Ok_0.0.client_mac@,
            login_closed,
            server_result,
        ),
    ensures
        response is Ok,
        ke2 is Ok,
        client_result is Ok,
        server_result is Ok,
        client_result->Ok_0.1.0@ == server_result->Ok_0.0@,
        client_result->Ok_0.2@ == finished.1@,
        login_closed.phase is Completed,
{
    lemma_group_order_bound();
    law_login_agrees(
        registration.server,
        registration.credential_identifier,
        client_identity,
        password,
        registration_blind,
        finished.0.envelope_nonce@,
        state.blind,
        client_nonce,
        client_seed,
        server_seed,
        server_nonce,
    );
}

/// A login by a client with another password, or with other identities, than at
/// registration is refused with [`OpaqueError::EnvelopeRecoveryError`] exactly when
/// the two envelope tags differ.
pub proof fn law_other_credentials_are_refused(
    server: ServerView,
    credential_identifier: Seq<u8>,
    server_identity: Seq<u8>,
    client_identity: Seq<u8>,
    password: Seq<u8>,
    registration_blind: nat,
    envelope_nonce: Seq<u8>,
    other_password: Seq<u8>,
    other_server_identity: Seq<u8>,
    other_client_identity: Seq<u8>,
    login_blind: nat,
    client_nonce: Seq<u8>,
    client_seed: Seq<u8>,
    server_seed: Seq<u8>,
    server_nonce: Seq<u8>,
)
    requires
        is_group_element(model::password_element(password)),
        is_group_element(model::password_element(other_password)),
        registration_blind < group_order(),
        is_invertible(registration_blind),
        login_blind < group_order(),
        is_invertible(login_blind),
    ensures
        ({
            let record = model::registration_record(
                registration_blind,
                model::registration_response(
                    server,
                    credential_identifier,
                    model::registration_request(password, registration_blind),
                ),
                envelope_nonce,
                server_identity,
                client_identity,
            );
            let state = model::client_login_state(
                other_password,
                login_blind,
                client_nonce,
                client_seed,
            );
            let login = model::login_response(
                server,
                credential_identifier,
                state.ke1,
                record,
                client_identity,
                server_seed,
                server_nonce,
            );
            let outcome = model::client_login_outcome(
                state,
                login.ke2,
                other_server_identity,
                other_client_identity,
            );
            let key = model::oprf_key(server.oprf_seed, credential_identifier);
            let refused = outcome matches Err(e) && e is EnvelopeRecoveryError;
            refused <==> model::envelope_tag(
                password_key(other_password, key),
                envelope_nonce,
                server.static_pk,
                other_server_identity,
                other_client_identity,
            ) != model::envelope_tag(
                password_key(password, key),
                envelope_nonce,
                server.static_pk,
                server_identity,
                client_identity,
            )
        }),
{
    law_recovered_password(server, credential_identifier, password, registration_blind);
    law_recovered_password(server, credential_identifier, other_password, login_blind);
}

/// Whether the derivation of an envelope tag gives one value for two inputs, on the
/// way from two evaluated elements and two messages: a digest, a randomized password,
/// an authentication key or a tag.
pub open spec fn envelope_collision(
    element1: Seq<u8>,
    message1: Seq<u8>,
    element2: Seq<u8>,
    message2: Seq<u8>,
    nonce: Seq<u8>,
) -> bool {
    let output1 = model::sha512(element1);
    let output2 = model::sha512(element2);
    let rand_pwd1 = model::hmac_sha512(Seq::empty(), output1 + output1);
    let rand_pwd2 = model::hmac_sha512(Seq::empty(), output2 + output2);
    let key1 = model::hkdf_sha512_expand(rand_pwd1, nonce + label("AuthKey"), 64);
    let key2 = model::hkdf_sha512_expand(rand_pwd2, nonce + label("AuthKey"), 64);
    ||| element1 != element2 && output1 == output2
    ||| output1 != output2 && rand_pwd1 == rand_pwd2
    ||| rand_pwd1 != rand_pwd2 && key1 == key2
    ||| (key1 != key2 || message1 != message2) && model::hmac_sha512(key1, message1)
        == model::hmac_sha512(key2, message2)
}

/// A login by a client with a password of another element, or with another identity,
/// than at registration is refused with [`OpaqueError::EnvelopeRecoveryError`], but
/// for a collision in the derivation of the envelope tag. For another identity all of
/// them are shorter than 2^16 bytes; for another password the evaluation key must be
/// invertible, which all but zero are.
pub proof fn law_other_credentials_need_a_collision(
    server: ServerView,
    credential_identifier: Seq<u8>,
    server_identity: Seq<u8>,
    client_identity: Seq<u8>,
    password: Seq<u8>,
    registration_blind: nat,
    envelope_nonce: Seq<u8>,
    other_password: Seq<u8>,
    other_server_identity: Seq<u8>,
    other_client_identity: Seq<u8>,
    login_blind: nat,
    client_nonce: Seq<u8>,
    client_seed: Seq<u8>,
    server_seed: Seq<u8>,
    server_nonce: Seq<u8>,
)
    requires
        is_group_element(model::password_element(password)),
        is_group_element(model::password_element(other_password)),
        registration_blind < group_order(),
        is_invertible(registration_blind),
        login_blind < group_order(),
        is_invertible(login_blind),
        ({
            ||| (server_identity != other_server_identity || client_identity
                != other_client_identity) && server_identity.len() < 0x1_0000
                && client_identity.len() < 0x1_0000 && other_server_identity.len() < 0x1_0000
                && other_client_identity.len() < 0x1_0000
            ||| model::password_element(password) != model::password_element(other_password)
                && is_invertible(model::oprf_key(server.oprf_seed, credential_identifier))
        }),
    ensures
        ({
            let record = model::registration_record(
                registration_blind,
                model::registration_response(
                    server,
                    credential_identifier,
                    model::registration_request(password, registration_blind),
                ),
                envelope_nonce,
                server_identity,
                client_identity,
            );
            let state = model::client_login_state(
                other_password,
                login_blind,
                client_nonce,
                client_seed,
            );
            let login = model::login_response(
                server,
                credential_identifier,
                state.ke1,
                record,
                client_identity,
                server_seed,
                server_nonce,
            );
            let outcome = model::client_login_outcome(
                state,
                login.ke2,
                other_server_identity,
                other_client_identity,
            );
            let key = model::oprf_key(server.oprf_seed, credential_identifier);
            ||| outcome == Err::<LoginOutcome, OpaqueError>(OpaqueError::EnvelopeRecoveryError)
            ||| envelope_collision(
                ristretto_mul(model::password_element(password), key),
                model::envelope_message(
                    envelope_nonce,
                    server.static_pk,
                    server_identity,
                    client_identity,
                ),
                ristretto_mul(model::password_element(other_password), key),
                model::envelope_message(
                    envelope_nonce,
                    server.static_pk,
                    other_server_identity,
                    other_client_identity,
                ),
                envelope_nonce,
            )
        }),
{
    law_other_credentials_are_refused(
        server,
        credential_identifier,
        server_identity,
        client_identity,
        password,
        registration_blind,
        envelope_nonce,
        other_password,
        other_server_identity,
        other_client_identity,
        login_blind,
        client_nonce,
        client_seed,
        server_seed,
        server_nonce,
    );
    lemma_group_order_bound();
    let key = model::oprf_key(server.oprf_seed, credential_identifier);
    let p = model::password_element(password);
    let q = model::password_element(other_password);
    if p != q && is_invertible(key) && ristretto_mul(p, key) == ristretto_mul(q, key) {
        lemma_invertible_multiple(p, q, key);
    }
    if server_identity.len() < 0x1_0000 && client_identity.len() < 0x1_0000
        && other_server_identity.len() < 0x1_0000 && other_client_identity.len() < 0x1_0000
        && model::envelope_message(
        envelope_nonce,
        server.static_pk,
        server_identity,
        client_identity,
    ) == model::envelope_message(
        envelope_nonce,
        server.static_pk,
        other_server_identity,
        other_client_identity,
    ) {
        law_envelope_message_injective(
            envelope_nonce,
            server.static_pk,
            server_identity,
            client_identity,
            envelope_nonce,
            server.static_pk,
            other_server_identity,
            other_client_identity,
        );
    }
}

/// Losing the seeds invalidates the records: a login with a record of another server
/// is refused with [`OpaqueError::EnvelopeRecoveryError`] exactly
/// when the two envelope tags differ. Where the public key is another one, or the seed of
/// the evaluation keys is and the password's element is not neutral, it is refused but
/// for a collision: one in the derivation of the tag, or two seeds that give the client
/// one evaluation key.
pub proof fn law_lost_seeds_invalidate_records(
    server: ServerView,
    other: ServerView,
    credential_identifier: Seq<u8>,
    server_identity: Seq<u8>,
    client_identity: Seq<u8>,
    password: Seq<u8>,
    registration_blind: nat,
    envelope_nonce: Seq<u8>,
    login_blind: nat,
    client_nonce: Seq<u8>,
    client_seed: Seq<u8>,
    server_seed: Seq<u8>,
    server_nonce: Seq<u8>,
)
    requires
        server.well_formed(),
        other.well_formed(),
        is_group_element(model::password_element(password)),
        registration_blind < group_order(),
        is_invertible(registration_blind),
        login_blind < group_order(),
        is_invertible(login_blind),
    ensures
        ({
            let record = model::registration_record(
                registration_blind,
                model::registration_response(
                    server,
                    credential_identifier,
                    model::registration_request(password, registration_blind),
                ),
                envelope_nonce,
                server_identity,
                client_identity,
            );
            let state = model::client_login_state(password, login_blind, client_nonce, client_seed);
            let login = model::login_response(
                other,
                credential_identifier,
                state.ke1,
                record,
                client_identity,
                server_seed,
                server_nonce,
            );
            let outcome = model::client_login_outcome(
                state,
                login.ke2,
                server_identity,
                client_identity,
            );
            let refused = outcome == Err::<LoginOutcome, OpaqueError>(
                OpaqueError::EnvelopeRecoveryError,
            );
            let key1 = model::oprf_key(server.oprf_seed, credential_identifier);
            let key2 = model::oprf_key(other.oprf_seed, credential_identifier);
            let message1 = model::envelope_message(
                envelope_nonce,
                server.static_pk,
                server_identity,
                client_identity,
            );
            let message2 = model::envelope_message(
                envelope_nonce,
                other.static_pk,
                server_identity,
                client_identity,
            );
            &&& refused <==> model::envelope_tag(
                password_key(password, key2),
                envelope_nonce,
                other.static_pk,
                server_identity,
                client_identity,
            ) != record.envelope_auth_tag
            &&& (other.oprf_seed != server.oprf_seed && model::password_element(password)
                != ristretto_identity()) || other.static_pk != server.static_pk ==> {
                ||| refused
                ||| other.oprf_seed != server.oprf_seed && key1 == key2
                ||| envelope_collision(
                    ristretto_mul(model::password_element(password), key1),
                    message1,
                    ristretto_mul(model::password_element(password), key2),
                    message2,
                    envelope_nonce,
                )
            }
        }),
{
    law_recovered_password(server, credential_identifier, password, registration_blind);
    law_recovered_password(other, credential_identifier, password, login_blind);
    lemma_group_order_bound();
    let p = model::password_element(password);
    let key1 = model::oprf_key(server.oprf_seed, credential_identifier);
    let key2 = model::oprf_key(other.oprf_seed, credential_identifier);
    if p != ristretto_identity() && ristretto_mul(p, key1) == ristretto_mul(p, key2) {
        lemma_separates(p, key1, key2);
    }
    assert(server.static_pk.len() == other.static_pk.len()) by {
        reveal(is_key_pair);
        reveal(is_group_element);
    }
    if model::envelope_message(envelope_nonce, server.static_pk, server_identity, client_identity)
        == model::envelope_message(
        envelope_nonce,
        other.static_pk,
        server_identity,
        client_identity,
    ) {
        lemma_envelope_message_fixes_key(
            envelope_nonce,
            server.static_pk,
            server_identity,
            client_identity,
            envelope_nonce,
            other.static_pk,
            server_identity,
            client_identity,
        );
    }
}

/// A server that answers under another identity, or for another client identity, than
/// those of the client's registration is refused with
/// [`OpaqueError::ServerAuthenticationError`], but for a collision: two transcripts
/// with one digest, or one MAC for two digests. The identities are shorter than 2^16
/// bytes.
pub proof fn law_other_server_identity_is_noticed(
    server: ServerView,
    answered_client_identity: Seq<u8>,
    credential_identifier: Seq<u8>,
    server_identity: Seq<u8>,
    client_identity: Seq<u8>,
    password: Seq<u8>,
    registration_blind: nat,
    envelope_nonce: Seq<u8>,
    login_blind: nat,
    client_nonce: Seq<u8>,
    client_seed: Seq<u8>,
    server_seed: Seq<u8>,
    server_nonce: Seq<u8>,
)
    requires
        is_group_element(model::password_element(password)),
        registration_blind < group_order(),
        is_invertible(registration_blind),
        login_blind < group_order(),
        is_invertible(login_blind),
        server.identity.len() < 0x1_0000,
        answered_client_identity.len() < 0x1_0000,
        server_identity.len() < 0x1_0000,
        client_identity.len() < 0x1_0000,
        server.identity != server_identity || answered_client_identity != client_identity,
    ensures
        ({
            let record = model::registration_record(
                registration_blind,
                model::registration_response(
                    server,
                    credential_identifier,
                    model::registration_request(password, registration_blind),
                ),
                envelope_nonce,
                server_identity,
                client_identity,
            );
            let state = model::client_login_state(password, login_blind, client_nonce, client_seed);
            let ke2 = model::login_response(
                server,
                credential_identifier,
                state.ke1,
                record,
                answered_client_identity,
                server_seed,
                server_nonce,
            ).ke2;
            let sent = model::preamble(answered_client_identity, state.ke1, server.identity, ke2);
            let received = model::preamble(client_identity, state.ke1, server_identity, ke2);
            let server_km2 = model::handshake_keys(
                model::server_key_material(
                    server.static_sk,
                    model::seeded_private_key(server_seed),
                    state.ke1.client_ephemeral_pk,
                    record.client_public_key,
                ),
                sent,
            ).0;
            let client_km2 = model::client_handshake_keys(
                state,
                ke2,
                server_identity,
                client_identity,
            ).0;
            ||| model::client_login_outcome(state, ke2, server_identity, client_identity) == Err::<
                LoginOutcome,
                OpaqueError,
            >(OpaqueError::ServerAuthenticationError)
            ||| sent != received && model::sha512(sent) == model::sha512(received)
            ||| model::sha512(sent) != model::sha512(received) && model::server_mac(
                server_km2,
                sent,
            ) == model::server_mac(client_km2, received)
        }),
{
    law_recovered_password(server, credential_identifier, password, registration_blind);
    law_recovered_password(server, credential_identifier, password, login_blind);
    let record = model::registration_record(
        registration_blind,
        model::registration_response(
            server,
            credential_identifier,
            model::registration_request(password, registration_blind),
        ),
        envelope_nonce,
        server_identity,
        client_identity,
    );
    let state = model::client_login_state(password, login_blind, client_nonce, client_seed);
    let ke2 = model::login_response(
        server,
        credential_identifier,
        state.ke1,
        record,
        answered_client_identity,
        server_seed,
        server_nonce,
    ).ke2;
    let sent = model::preamble(answered_client_identity, state.ke1, server.identity, ke2);
    let received = model::preamble(client_identity, state.ke1, server_identity, ke2);
    if sent == received {
        lemma_preamble_fixes_parts(
            answered_client_identity,
            state.ke1,
            server.identity,
            ke2,
            client_identity,
            state.ke1,
            server_identity,
            ke2,
        );
    }
}

/// Whether the ephemeral keys that a seed determines belong together.
pub open spec fn has_key_pair(seed: Seq<u8>) -> bool {
    is_key_pair(
        model::seeded_private_key(seed),
        model::public_key(model::seeded_private_key(seed)),
    )
}

// ---------------------------------------------------------------------------
// The session state machine
// ---------------------------------------------------------------------------

/// Whether some call on a session takes it from `before` to `after`, and whether
/// that call succeeds.
pub open spec fn steps_to(before: SessionView, after: SessionView, succeeds: bool) -> bool {
    ||| exists|request: RegistrationRequestView, result: Result<RegistrationResponse, OpaqueError>|
        succeeds == (result is Ok) && #[trigger] registration_start_step(
            before,
            request,
            after,
            result,
        )
    ||| exists|record: RegistrationRecord, result: Result<RegistrationRecord, OpaqueError>|
        succeeds == (result is Ok) && #[trigger] registration_finish_step(
            before,
            record,
            after,
            result,
        )
    ||| exists|
        ke1: Ke1View,
        record: RegistrationRecordView,
        client_identity: Seq<u8>,
        keyshare_seed: Seq<u8>,
        server_nonce: Seq<u8>,
        result: Result<Ke2, OpaqueError>,
    |
        succeeds == (result is Ok) && #[trigger] login_start_step(
            before,
            ke1,
            record,
            client_identity,
            keyshare_seed,
            server_nonce,
            after,
            result,
        )
    ||| exists|client_mac: Seq<u8>, result: Result<SessionKey, OpaqueError>|
        succeeds == (result is Ok) && #[trigger] login_finish_step(
            before,
            client_mac,
            after,
            result,
        )
}

/// How many calls have succeeded in a session that is in this phase.
pub open spec fn progress(phase: SessionPhase) -> nat {
    match phase {
        SessionPhase::Idle => 0,
        SessionPhase::RegistrationAwaitingRecord => 1,
        SessionPhase::LoginAwaitingKe3 { .. } => 1,
        SessionPhase::Completed => 2,
    }
}

/// A call that fails leaves the session as it was.
pub proof fn law_failed_step_changes_nothing(before: SessionView, after: SessionView)
    requires
        steps_to(before, after, false),
    ensures
        after == before,
{
}

/// No call changes the server or the credential identifier of a session, and a
/// call that succeeds takes it one step onward.
pub proof fn law_step_advances(before: SessionView, after: SessionView, succeeds: bool)
    requires
        steps_to(before, after, succeeds),
    ensures
        after.server == before.server,
        after.credential_identifier == before.credential_identifier,
        progress(after.phase) == progress(before.phase) + if succeeds {
            1nat
        } else {
            0nat
        },
{
}

/// Every call on a completed session fails.
pub proof fn law_completed_is_final(before: SessionView, after: SessionView, succeeds: bool)
    requires
        before.phase is Completed,
        steps_to(before, after, succeeds),
    ensures
        !succeeds,
        after == before,
{
}

/// A session does not change from registration to login or back: once the first
/// call has succeeded, it stays in its phase, with what it keeps there, until it is
/// completed.
pub proof fn law_session_keeps_its_flow(before: SessionView, after: SessionView, succeeds: bool)
    requires
        !(before.phase is Idle),
        steps_to(before, after, succeeds),
    ensures
        after.phase == before.phase || after.phase is Completed,
{
}

/// Whether a session goes through these views, where each call succeeds or fails
/// as given.
pub open spec fn is_run(views: Seq<SessionView>, succeeds: Seq<bool>) -> bool {
    &&& views.len() == succeeds.len() + 1
    &&& forall|i: int|
        0 <= i < succeeds.len() ==> #[trigger] steps_to(views[i], views[i + 1], succeeds[i])
}

/// The number of calls of a run that succeed.
pub open spec fn successes(succeeds: Seq<bool>) -> nat
    decreases succeeds.len(),
{
    if succeeds.len() == 0 {
        0
    } else {
        successes(succeeds.drop_last()) + if succeeds.last() {
            1nat
        } else {
            0nat
        }
    }
}

/// A session serves one registration or one login: from an idle session at most
/// two calls ever succeed, and once two have, it is completed.
pub proof fn law_session_serves_once(views: Seq<SessionView>, succeeds: Seq<bool>)
    requires
        is_run(views, succeeds),
        views[0].phase is Idle,
    ensures
        successes(succeeds) == progress(views.last().phase),
        successes(succeeds) <= 2,
        successes(succeeds) == 2 <==> views.last().phase is Completed,
    decreases succeeds.len(),
{
    if succeeds.len() > 0 {
        let n = succeeds.len() - 1;
        let earlier = views.drop_last();
        assert(is_run(earlier, succeeds.drop_last())) by {
            assert forall|i: int| 0 <= i < n implies #[trigger] steps_to(
                earlier[i],
                earlier[i + 1],
                succeeds.drop_last()[i],
            ) by {
                assert(steps_to(views[i], views[i + 1], succeeds[i]));
            }
        }
        law_session_serves_once(earlier, succeeds.drop_last());
        assert(steps_to(views[n], views[n + 1], succeeds[n]));
        law_step_advances(views[n], views[n + 1], succeeds[n]);
    }
}

/// A session gives out a key only after it has answered KE1, only for the MAC that
/// it expects, and the key is the one that it derived then.
pub proof fn law_key_needs_client_mac(
    before: SessionView,
    client_mac: Seq<u8>,
    after: SessionView,
    result: Result<SessionKey, OpaqueError>,
)
    requires
        login_finish_step(before, client_mac, after, result),
        result is Ok,
    ensures
        before.phase == (SessionPhase::LoginAwaitingKe3 {
            expected_client_mac: client_mac,
            session_key: result->Ok_0.0@,
        }),
        after.phase is Completed,
{
}

// ---------------------------------------------------------------------------
// What is authenticated
// ---------------------------------------------------------------------------

/// Equal concatenations whose first parts have one length have equal parts.
pub(crate) proof fn lemma_split(a: Seq<u8>, b: Seq<u8>, c: Seq<u8>, d: Seq<u8>)
    requires
        a + b == c + d,
        a.len() == c.len(),
    ensures
        a == c,
        b == d,
{
    assert(a =~= (a + b).take(a.len() as int));
    assert(c =~= (c + d).take(c.len() as int));
    assert(b =~= (a + b).skip(a.len() as int));
    assert(d =~= (c + d).skip(c.len() as int));
}

/// Concatenation can be grouped either way.
proof fn lemma_regroup(a: Seq<u8>, b: Seq<u8>, c: Seq<u8>)
    ensures
        (a + b) + c == a + (b + c),
{
    assert((a + b) + c =~= a + (b + c));
}

/// Lengths below 2^16 are told apart by their two bytes.
proof fn lemma_u16_be_injective(m: nat, n: nat)
    requires
        m < 0x1_0000,
        n < 0x1_0000,
        u16_be(m) == u16_be(n),
    ensures
        m == n,
{
    assert(u16_be(m)[0] == (m / 0x100) as u8);
    assert(u16_be(n)[0] == (n / 0x100) as u8);
    assert(u16_be(m)[1] == (m % 0x100) as u8);
    assert(u16_be(n)[1] == (n % 0x100) as u8);
    assert(m / 0x100 == n / 0x100);
    assert(m % 0x100 == n % 0x100);
}

/// A length prefix tells where the byte string ends.
proof fn lemma_split_prefixed(a: Seq<u8>, rest_a: Seq<u8>, b: Seq<u8>, rest_b: Seq<u8>)
    requires
        a.len() < 0x1_0000,
        b.len() < 0x1_0000,
        length_prefixed(a) + rest_a == length_prefixed(b) + rest_b,
    ensures
        a == b,
        rest_a == rest_b,
{
    lemma_regroup(u16_be(a.len()), a, rest_a);
    lemma_regroup(u16_be(b.len()), b, rest_b);
    lemma_split(u16_be(a.len()), a + rest_a, u16_be(b.len()), b + rest_b);
    lemma_u16_be_injective(a.len(), b.len());
    lemma_split(a, rest_a, b, rest_b);
}

/// The envelope tag authenticates the nonce, the server's public key and both
/// identities: two messages under the tag are equal only if all four are, for
/// public keys of one length and identities shorter than 2^16 bytes.
pub proof fn law_envelope_message_injective(
    nonce1: Seq<u8>,
    server_pk1: Seq<u8>,
    server_identity1: Seq<u8>,
    client_identity1: Seq<u8>,
    nonce2: Seq<u8>,
    server_pk2: Seq<u8>,
    server_identity2: Seq<u8>,
    client_identity2: Seq<u8>,
)
    requires
        nonce1.len() == nonce2.len(),
        server_pk1.len() == server_pk2.len(),
        server_identity1.len() < 0x1_0000,
        server_identity2.len() < 0x1_0000,
        client_identity1.len() < 0x1_0000,
        client_identity2.len() < 0x1_0000,
        model::envelope_message(nonce1, server_pk1, server_identity1, client_identity1)
            == model::envelope_message(nonce2, server_pk2, server_identity2, client_identity2),
    ensures
        nonce1 == nonce2,
        server_pk1 == server_pk2,
        server_identity1 == server_identity2,
        client_identity1 == client_identity2,
{
    lemma_envelope_message_fixes_key(
        nonce1,
        server_pk1,
        server_identity1,
        client_identity1,
        nonce2,
        server_pk2,
        server_identity2,
        client_identity2,
    );
    lemma_split_prefixed(
        server_identity1,
        length_prefixed(client_identity1),
        server_identity2,
        length_prefixed(client_identity2),
    );
    let none: Seq<u8> = Seq::empty();
    assert(length_prefixed(client_identity1) + none =~= length_prefixed(client_identity1));
    assert(length_prefixed(client_identity2) + none =~= length_prefixed(client_identity2));
    lemma_split_prefixed(client_identity1, none, client_identity2, none);
}

/// Equal envelope messages have the same nonce and public key, and the same bytes
/// for the identities.
proof fn lemma_envelope_message_fixes_key(
    nonce1: Seq<u8>,
    server_pk1: Seq<u8>,
    server_identity1: Seq<u8>,
    client_identity1: Seq<u8>,
    nonce2: Seq<u8>,
    server_pk2: Seq<u8>,
    server_identity2: Seq<u8>,
    client_identity2: Seq<u8>,
)
    requires
        nonce1.len() == nonce2.len(),
        server_pk1.len() == server_pk2.len(),
        model::envelope_message(nonce1, server_pk1, server_identity1, client_identity1)
            == model::envelope_message(nonce2, server_pk2, server_identity2, client_identity2),
    ensures
        nonce1 == nonce2,
        server_pk1 == server_pk2,
        length_prefixed(server_identity1) + length_prefixed(client_identity1) == length_prefixed(
            server_identity2,
        ) + length_prefixed(client_identity2),
{
    let tail1 = length_prefixed(server_identity1) + length_prefixed(client_identity1);
    let tail2 = length_prefixed(server_identity2) + length_prefixed(client_identity2);
    assert(model::envelope_message(nonce1, server_pk1, server_identity1, client_identity1) =~= (
    nonce1 + server_pk1) + tail1);
    assert(model::envelope_message(nonce2, server_pk2, server_identity2, client_identity2) =~= (
    nonce2 + server_pk2) + tail2);
    lemma_split(nonce1 + server_pk1, tail1, nonce2 + server_pk2, tail2);
    lemma_split(nonce1, server_pk1, nonce2, server_pk2);
}

/// What the transcript holds of KE2.
spec fn ke2_part(ke2: Ke2View) -> Seq<u8> {
    model::credential_response_encoding(ke2) + ke2.server_nonce + ke2.server_ephemeral_pk
}

/// The transcript, grouped from the right.
proof fn lemma_preamble_parts(
    client_identity: Seq<u8>,
    ke1: Ke1View,
    server_identity: Seq<u8>,
    ke2: Ke2View,
)
    ensures
        model::preamble(client_identity, ke1, server_identity, ke2) == (label("OPAQUEv1-")
            + length_prefixed(Seq::empty())) + (length_prefixed(client_identity) + (
        model::ke1_encoding(ke1) + (length_prefixed(server_identity) + ke2_part(ke2)))),
{
    let head = label("OPAQUEv1-") + length_prefixed(Seq::empty());
    let id1 = length_prefixed(client_identity);
    let m1 = model::ke1_encoding(ke1);
    let id2 = length_prefixed(server_identity);
    let response = model::credential_response_encoding(ke2);
    let y = head + id1 + m1 + id2;
    lemma_regroup(y, response, ke2.server_nonce);
    lemma_regroup(y, response + ke2.server_nonce, ke2.server_ephemeral_pk);
    lemma_regroup(head + id1 + m1, id2, ke2_part(ke2));
    lemma_regroup(head + id1, m1, id2 + ke2_part(ke2));
    lemma_regroup(head, id1, m1 + (id2 + ke2_part(ke2)));
}

/// Equal transcripts have equal identities, KE1 and part of KE2.
proof fn lemma_preamble_fixes_parts(
    client_identity1: Seq<u8>,
    ke1_1: Ke1View,
    server_identity1: Seq<u8>,
    ke2_1: Ke2View,
    client_identity2: Seq<u8>,
    ke1_2: Ke1View,
    server_identity2: Seq<u8>,
    ke2_2: Ke2View,
)
    requires
        model::ke1_encoding(ke1_1).len() == model::ke1_encoding(ke1_2).len(),
        client_identity1.len() < 0x1_0000,
        client_identity2.len() < 0x1_0000,
        server_identity1.len() < 0x1_0000,
        server_identity2.len() < 0x1_0000,
        model::preamble(client_identity1, ke1_1, server_identity1, ke2_1) == model::preamble(
            client_identity2,
            ke1_2,
            server_identity2,
            ke2_2,
        ),
    ensures
        client_identity1 == client_identity2,
        model::ke1_encoding(ke1_1) == model::ke1_encoding(ke1_2),
        server_identity1 == server_identity2,
        ke2_part(ke2_1) == ke2_part(ke2_2),
{
    lemma_preamble_parts(client_identity1, ke1_1, server_identity1, ke2_1);
    lemma_preamble_parts(client_identity2, ke1_2, server_identity2, ke2_2);
    let head = label("OPAQUEv1-") + length_prefixed(Seq::empty());
    let server_tail1 = length_prefixed(server_identity1) + ke2_part(ke2_1);
    let server_tail2 = length_prefixed(server_identity2) + ke2_part(ke2_2);
    let ke1_tail1 = model::ke1_encoding(ke1_1) + server_tail1;
    let ke1_tail2 = model::ke1_encoding(ke1_2) + server_tail2;
    lemma_split(
        head,
        length_prefixed(client_identity1) + ke1_tail1,
        head,
        length_prefixed(client_identity2) + ke1_tail2,
    );
    lemma_split_prefixed(client_identity1, ke1_tail1, client_identity2, ke1_tail2);
    lemma_split(
        model::ke1_encoding(ke1_1),
        server_tail1,
        model::ke1_encoding(ke1_2),
        server_tail2,
    );
    lemma_split_prefixed(server_identity1, ke2_part(ke2_1), server_identity2, ke2_part(ke2_2));
}

/// KE1 on the wire fixes KE1.
proof fn lemma_ke1_encoding_injective(ke1_1: Ke1View, ke1_2: Ke1View)
    requires
        ke1_1.well_formed(),
        ke1_2.well_formed(),
        model::ke1_encoding(ke1_1) == model::ke1_encoding(ke1_2),
    ensures
        ke1_1 == ke1_2,
{
    lemma_split(
        ke1_1.blinded_element + ke1_1.client_nonce,
        ke1_1.client_ephemeral_pk,
        ke1_2.blinded_element + ke1_2.client_nonce,
        ke1_2.client_ephemeral_pk,
    );
    lemma_split(
        ke1_1.blinded_element,
        ke1_1.client_nonce,
        ke1_2.blinded_element,
        ke1_2.client_nonce,
    );
}

/// The credential response on the wire fixes its four fields.
proof fn lemma_credential_response_injective(ke2_1: Ke2View, ke2_2: Ke2View)
    requires
        ke2_1.well_formed(),
        ke2_2.well_formed(),
        model::credential_response_encoding(ke2_1) == model::credential_response_encoding(ke2_2),
    ensures
        ke2_1.evaluated_element == ke2_2.evaluated_element,
        ke2_1.envelope_nonce == ke2_2.envelope_nonce,
        ke2_1.envelope_auth_tag == ke2_2.envelope_auth_tag,
        ke2_1.server_public_key == ke2_2.server_public_key,
{
    let start1 = ke2_1.evaluated_element + ke2_1.envelope_nonce;
    let start2 = ke2_2.evaluated_element + ke2_2.envelope_nonce;
    lemma_split(
        start1 + ke2_1.envelope_auth_tag,
        ke2_1.server_public_key,
        start2 + ke2_2.envelope_auth_tag,
        ke2_2.server_public_key,
    );
    lemma_split(start1, ke2_1.envelope_auth_tag, start2, ke2_2.envelope_auth_tag);
    lemma_split(
        ke2_1.evaluated_element,
        ke2_1.envelope_nonce,
        ke2_2.evaluated_element,
        ke2_2.envelope_nonce,
    );
}

/// What the transcript holds of KE2 fixes all of it but the MAC.
proof fn lemma_ke2_part_injective(ke2_1: Ke2View, ke2_2: Ke2View)
    requires
        ke2_1.well_formed(),
        ke2_2.well_formed(),
        ke2_part(ke2_1) == ke2_part(ke2_2),
    ensures
        ke2_2 == (Ke2View { server_mac: ke2_2.server_mac, ..ke2_1 }),
{
    let response1 = model::credential_response_encoding(ke2_1);
    let response2 = model::credential_response_encoding(ke2_2);
    lemma_split(
        response1 + ke2_1.server_nonce,
        ke2_1.server_ephemeral_pk,
        response2 + ke2_2.server_nonce,
        ke2_2.server_ephemeral_pk,
    );
    lemma_split(response1, ke2_1.server_nonce, response2, ke2_2.server_nonce);
    lemma_credential_response_injective(ke2_1, ke2_2);
}

/// The transcript fixes both identities, the whole of KE1, and of KE2 all but the
/// server's MAC, for identities shorter than 2^16 bytes.
pub proof fn law_preamble_injective(
    client_identity1: Seq<u8>,
    ke1_1: Ke1View,
    server_identity1: Seq<u8>,
    ke2_1: Ke2View,
    client_identity2: Seq<u8>,
    ke1_2: Ke1View,
    server_identity2: Seq<u8>,
    ke2_2: Ke2View,
)
    requires
        ke1_1.well_formed(),
        ke1_2.well_formed(),
        ke2_1.well_formed(),
        ke2_2.well_formed(),
        client_identity1.len() < 0x1_0000,
        client_identity2.len() < 0x1_0000,
        server_identity1.len() < 0x1_0000,
        server_identity2.len() < 0x1_0000,
        model::preamble(client_identity1, ke1_1, server_identity1, ke2_1) == model::preamble(
            client_identity2,
            ke1_2,
            server_identity2,
            ke2_2,
        ),
    ensures
        client_identity1 == client_identity2,
        ke1_1 == ke1_2,
        server_identity1 == server_identity2,
        ke2_2 == (Ke2View { server_mac: ke2_2.server_mac, ..ke2_1 }),
{
    lemma_preamble_fixes_parts(
        client_identity1,
        ke1_1,
        server_identity1,
        ke2_1,
        client_identity2,
        ke1_2,
        server_identity2,
        ke2_2,
    );
    lemma_ke1_encoding_injective(ke1_1, ke1_2);
    lemma_ke2_part_injective(ke2_1, ke2_2);
}

/// The transcript does not depend on the server's MAC, so the server can compute it
/// before the MAC and the client after.
pub proof fn law_preamble_precedes_server_mac(
    client_identity: Seq<u8>,
    ke1: Ke1View,
    server_identity: Seq<u8>,
    ke2: Ke2View,
    server_mac: Seq<u8>,
)
    ensures
        model::preamble(client_identity, ke1, server_identity, (Ke2View { server_mac, ..ke2 }))
            == model::preamble(client_identity, ke1, server_identity, ke2),
{
}

// ---------------------------------------------------------------------------
// Tokens
// ---------------------------------------------------------------------------

/// Verifying a token that was minted with the same key and HS256, and whose header can
/// be read, gives back its claims exactly when their audience is `access` and their
/// expiry time has passed no more than a minute ago; otherwise it fails.
pub proof fn law_minted_token_verifies(
    token: Seq<char>,
    key: Seq<u8>,
    claims: Seq<u8>,
    now: u64,
    verified: Result<Vec<u8>, JwtError>,
)
    requires
        carries(token, key, "HS256"@, claims),
        jwt_header_decodes(token),
        now >= 60,
        verified_at(token, key, now, verified),
    ensures
        verified is Ok <==> claims_hold(claims, "access"@, now),
        verified matches Ok(c) ==> c@ == claims,
{
    if verified is Ok {
        lemma_carried_claims(token, key, "HS256"@, claims);
        law_claims_unique(token, verified->Ok_0@, claims);
    }
}

/// The round trip: a token that was minted with the same key, HS256 and a header without
/// a repeated field verifies to its claims, if their audience is `access` and their expiry
/// time is not over.
pub proof fn law_token_round_trip(
    token: Seq<char>,
    key: Seq<u8>,
    header: JwtHeader,
    claims: Seq<char>,
    now: u64,
    verified: Result<Vec<u8>, JwtError>,
)
    requires
        // SessionKey::mint_jwt
        header.algorithm@ == "HS256"@,
        header.is_plain(),
        carries(token, key, header.algorithm@, claims_bytes(claims)),
        header.is_plain() ==> jwt_header_decodes(token),
        // SessionKey::verify_jwt
        verified_at(token, key, now, verified),
        // The claims
        jwt_audiences(claims_bytes(claims)) == Some(set!["access"@]),
        jwt_expiry(claims_bytes(claims)) is Some,
        60 <= now <= jwt_expiry(claims_bytes(claims))->0,
    ensures
        verified is Ok,
        verified->Ok_0@ == claims_bytes(claims),
{
    law_minted_token_verifies(token, key, claims_bytes(claims), now, verified);
}

/// The claims that a token carries are the claims it has.
proof fn lemma_carried_claims(
    token: Seq<char>,
    key: Seq<u8>,
    algorithm: Seq<char>,
    claims: Seq<u8>,
)
    requires
        carries(token, key, algorithm, claims),
    ensures
        has_claims(token, claims),
{
    let head = choose|head: Seq<char>|
        ({
            let message = #[trigger] jwt_message(head, claims);
            let signature = jwt_signature(message, key, algorithm);
            token == jwt_token(message, signature) && !signature.contains('.')
        });
    let signature = jwt_signature(jwt_message(head, claims), key, algorithm);
    assert(token == jwt_token(jwt_message(head, claims), signature));
}

/// Verifying a token, under whichever key, gives back nothing but the claims it was
/// minted with, and nothing at all when it was minted with another algorithm than
/// HS256.
pub proof fn law_verified_claims_were_minted(
    token: Seq<char>,
    key: Seq<u8>,
    algorithm: Seq<char>,
    claims: Seq<u8>,
    verifying_key: Seq<u8>,
    now: u64,
    verified: Result<Vec<u8>, JwtError>,
)
    requires
        carries(token, key, algorithm, claims),
        now >= 60,
        verified_at(token, verifying_key, now, verified),
        verified is Ok,
    ensures
        verified->Ok_0@ == claims,
        algorithm == "HS256"@,
{
    lemma_carried_claims(token, key, algorithm, claims);
    law_claims_unique(token, verified->Ok_0@, claims);
}

/// A token that was minted with one key verifies under another key only if both give
/// its message the same signature.
pub proof fn law_other_key_needs_a_collision(
    token: Seq<char>,
    key: Seq<u8>,
    algorithm: Seq<char>,
    claims: Seq<u8>,
    verifying_key: Seq<u8>,
    now: u64,
)
    requires
        carries(token, key, algorithm, claims),
        now >= 60,
        accepted(token, verifying_key, now),
    ensures
        exists|message: Seq<char>|
            token == jwt_token(message, #[trigger] jwt_signature(message, key, algorithm))
                && jwt_signature(message, verifying_key, algorithm) == jwt_signature(
                message,
                key,
                algorithm,
            ),
{
}

/// Whatever token verifies, and whoever minted it: its claims have an expiry time that
/// has passed no more than a minute ago, and `access` is their audience or one of them.
pub proof fn law_verified_claims_hold(
    token: Seq<char>,
    key: Seq<u8>,
    now: u64,
    verified: Result<Vec<u8>, JwtError>,
)
    requires
        verified_at(token, key, now, verified),
        verified is Ok,
    ensures
        jwt_expiry(verified->Ok_0@) is Some,
        now <= jwt_expiry(verified->Ok_0@)->0 + 60,
        jwt_audiences(verified->Ok_0@) is Some,
        jwt_audiences(verified->Ok_0@)->0.contains("access"@),
{
}

/// A token with claims that have no audience, no expiry time, other audiences than
/// `access`, or an expiry time that passed more than a minute ago, does not verify,
/// whoever minted it and with whichever key.
pub proof fn law_claims_that_do_not_hold_are_refused(
    token: Seq<char>,
    key: Seq<u8>,
    claims: Seq<u8>,
    now: u64,
    verified: Result<Vec<u8>, JwtError>,
)
    requires
        has_claims(token, claims),
        verified_at(token, key, now, verified),
        ({
            ||| jwt_audiences(claims) is None
            ||| jwt_expiry(claims) is None
            ||| !jwt_audiences(claims)->0.contains("access"@)
            ||| now > jwt_expiry(claims)->0 + 60
        }),
    ensures
        verified is Err,
{
    if verified is Ok {
        law_claims_unique(token, verified->Ok_0@, claims);
    }
}

/// A token whose audience claim is a single text other than `access` does not verify.
pub proof fn law_other_audience_is_refused(
    token: Seq<char>,
    key: Seq<u8>,
    algorithm: Seq<char>,
    claims: Seq<char>,
    audience: Option<String>,
    verifying_key: Seq<u8>,
    now: u64,
    verified: Result<Vec<u8>, JwtError>,
)
    requires
        // SessionKey::mint_jwt
        carries(token, key, algorithm, claims_bytes(claims)),
        // jwt::audience
        audience matches Some(a) ==> (jwt_audiences(claims_bytes(claims)) matches Some(audiences)
            ==> audiences == set![a@]),
        audience is Some,
        audience->0@ != "access"@,
        // SessionKey::verify_jwt
        verified_at(token, verifying_key, now, verified),
    ensures
        verified is Err,
{
    lemma_carried_claims(token, key, algorithm, claims_bytes(claims));
    law_claims_that_do_not_hold_are_refused(
        token,
        verifying_key,
        claims_bytes(claims),
        now,
        verified,
    );
}

} // verus!
