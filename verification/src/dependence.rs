//! What each derived key, tag and element depends on, and what keeps it apart from the
//! others: two of them are equal only if what they come from is equal, but for a
//! collision of the hash or the MAC on inputs that the laws write out.
use crate::base64::{b64url, lemma_b64url_has_no_dot};
use crate::bytes::{label, u16_be};
use crate::client::{login_result, login_started, registration_finished, ClientLoginState};
use crate::group::{
    group_order, is_group_element, is_invertible, is_key_pair, le_value, lemma_group_order_bound,
    ristretto_basepoint, ristretto_decodes, ristretto_from_uniform, ristretto_mul, scalar_inverse,
};
use crate::jwt::{
    claims_bytes, has_claims, json_value, jwt_accepts, jwt_message, jwt_token, JwtError,
};
use crate::laws::lemma_split;
use crate::model;
use crate::model::{
    hkdf_sha512_expand, hmac_sha512, sha512, ClientLoginView, LoginOutcome, ServerView,
};
use crate::server::{
    login_elements_decode, login_finish_step, login_start_step, registration_finish_step,
    registration_start_step, verified_at, SessionKey, SessionPhase, SessionView,
};
use crate::wire_structs::{
    Ke1, Ke1View, Ke2, Ke2View, Ke3, RegistrationRecord, RegistrationRecordView,
    RegistrationRequest, RegistrationRequestView, RegistrationResponse, RegistrationResponseView,
};
use crate::{OpaqueError, NH};
use vstd::prelude::*;

verus! {

// ---------------------------------------------------------------------------
// Collisions
// ---------------------------------------------------------------------------

/// Two different texts with one digest.
pub open spec fn digest_collision(a: Seq<u8>, b: Seq<u8>) -> bool {
    a != b && sha512(a) == sha512(b)
}

/// The first `len` bytes of a tag.
pub open spec fn tag_start(key: Seq<u8>, msg: Seq<u8>, len: nat) -> Seq<u8> {
    Seq::new(len, |i: int| hmac_sha512(key, msg)[i])
}

/// Two different pairs of key and message whose tags agree in their first `len` bytes.
pub open spec fn tag_collision(
    key1: Seq<u8>,
    msg1: Seq<u8>,
    key2: Seq<u8>,
    msg2: Seq<u8>,
    len: nat,
) -> bool {
    (key1 != key2 || msg1 != msg2) && tag_start(key1, msg1, len) == tag_start(key2, msg2, len)
}

/// Two different pairs of key and message with one tag.
pub open spec fn mac_collision(
    key1: Seq<u8>,
    msg1: Seq<u8>,
    key2: Seq<u8>,
    msg2: Seq<u8>,
) -> bool {
    (key1 != key2 || msg1 != msg2) && hmac_sha512(key1, msg1) == hmac_sha512(key2, msg2)
}

/// Two different byte strings that denote one scalar.
pub open spec fn order_collision(a: Seq<u8>, b: Seq<u8>) -> bool {
    a != b && le_value(a) % group_order() == le_value(b) % group_order()
}

/// What HKDF-Expand takes the MAC of for its first block.
pub open spec fn first_block(info: Seq<u8>) -> Seq<u8> {
    info + seq![1u8]
}

/// Up to 64 bytes of HKDF-Expand are the start of one tag.
pub proof fn law_expand_starts_with_one_tag(prk: Seq<u8>, info: Seq<u8>, len: nat)
    requires
        len <= 64,
    ensures
        hkdf_sha512_expand(prk, info, len) == tag_start(prk, first_block(info), len),
{
    reveal(model::hkdf_sha512_expand);
    assert(Seq::<u8>::empty() + info + seq![1u8] =~= first_block(info));
    assert(hkdf_sha512_expand(prk, info, len) =~= tag_start(prk, first_block(info), len));
}

/// Different infos have different first blocks.
proof fn lemma_first_block(a: Seq<u8>, b: Seq<u8>)
    ensures
        first_block(a) == first_block(b) ==> a == b,
{
    if first_block(a) == first_block(b) {
        assert(a.len() + 1 == first_block(a).len());
        assert(b.len() + 1 == first_block(b).len());
        lemma_split(a, seq![1u8], b, seq![1u8]);
    }
}

/// HKDF-Expand gives two keys or infos one output only for a collision of the MAC.
proof fn lemma_expand_collision(
    prk1: Seq<u8>,
    info1: Seq<u8>,
    prk2: Seq<u8>,
    info2: Seq<u8>,
    len: nat,
)
    requires
        len <= 64,
        hkdf_sha512_expand(prk1, info1, len) == hkdf_sha512_expand(prk2, info2, len),
    ensures
        (prk1 == prk2 && info1 == info2) || tag_collision(
            prk1,
            first_block(info1),
            prk2,
            first_block(info2),
            len,
        ),
{
    law_expand_starts_with_one_tag(prk1, info1, len);
    law_expand_starts_with_one_tag(prk2, info2, len);
    lemma_first_block(info1, info2);
}

/// Texts with one ending are equal only if their beginnings are.
proof fn lemma_same_ending(a: Seq<u8>, b: Seq<u8>, ending: Seq<u8>)
    ensures
        a + ending == b + ending ==> a == b,
{
    if a + ending == b + ending {
        assert((a + ending).len() == (b + ending).len());
        lemma_split(a, ending, b, ending);
    }
}

/// Texts with one beginning are equal only if their endings are.
proof fn lemma_same_beginning(beginning: Seq<u8>, a: Seq<u8>, b: Seq<u8>)
    ensures
        beginning + a == beginning + b ==> a == b,
{
    if beginning + a == beginning + b {
        lemma_split(beginning, a, beginning, b);
    }
}

/// A text of the first 128 characters is written with one byte for each.
proof fn lemma_ascii(chars: Seq<char>)
    requires
        forall|i: int| 0 <= i < chars.len() ==> (#[trigger] chars[i] as u32) < 128,
    ensures
        vstd::utf8::encode_utf8(chars).len() == chars.len(),
        forall|i: int|
            0 <= i < chars.len() ==> #[trigger] vstd::utf8::encode_utf8(chars)[i] == (
            chars[i] as u32) as u8,
    decreases chars.len(),
{
    if chars.len() > 0 {
        let rest = chars.drop_first();
        assert forall|i: int| 0 <= i < rest.len() implies (#[trigger] rest[i] as u32) < 128 by {
            assert(rest[i] == chars[i + 1]);
        }
        lemma_ascii(rest);
        let c = chars[0] as u32;
        assert(vstd::utf8::has_width_1_encoding(c));
        assert((c & 0x7f) as u8 == c as u8) by (bit_vector)
            requires
                c < 128,
        ;
        assert(vstd::utf8::encode_utf8(chars) =~= seq![c as u8]
            + vstd::utf8::encode_utf8(rest));
        assert forall|i: int| 0 <= i < chars.len() implies #[trigger] vstd::utf8::encode_utf8(
            chars,
        )[i] == (chars[i] as u32) as u8 by {
            if i > 0 {
                assert(rest[i - 1] == chars[i]);
            }
        }
    }
}

/// The lengths and first bytes that tell the labels apart.
proof fn lemma_labels()
    ensures
        label("SessionKey").len() == 10,
        label("SessionKey")[2] == 0x73,
        label("HandshakeSecret").len() == 15,
        label("HandshakeSecret")[0] == 0x48,
        label("ServerMAC").len() == 9,
        label("ServerMAC")[0] == 0x53,
        label("ServerMAC")[2] == 0x72,
        label("ClientMAC").len() == 9,
        label("ClientMAC")[0] == 0x43,
        label("MaskingKey").len() == 10,
        label("AuthKey").len() == 7,
        label("ExportKey").len() == 9,
        label("PrivateKey").len() == 10,
        label("OprfKey").len() == 7,
{
    reveal_strlit("SessionKey");
    reveal_strlit("HandshakeSecret");
    reveal_strlit("ServerMAC");
    reveal_strlit("ClientMAC");
    reveal_strlit("MaskingKey");
    reveal_strlit("AuthKey");
    reveal_strlit("ExportKey");
    reveal_strlit("PrivateKey");
    reveal_strlit("OprfKey");
    lemma_ascii("SessionKey"@);
    lemma_ascii("HandshakeSecret"@);
    lemma_ascii("ServerMAC"@);
    lemma_ascii("ClientMAC"@);
    lemma_ascii("MaskingKey"@);
    lemma_ascii("AuthKey"@);
    lemma_ascii("ExportKey"@);
    lemma_ascii("PrivateKey"@);
    lemma_ascii("OprfKey"@);
}

// ---------------------------------------------------------------------------
// Key derivation
// ---------------------------------------------------------------------------

/// A labeled secret depends on the key, and on the label and the context joined, and on
/// nothing else.
pub proof fn law_labeled_secret_depends_on_inputs(
    prk1: Seq<u8>,
    tag1: Seq<u8>,
    context1: Seq<u8>,
    prk2: Seq<u8>,
    tag2: Seq<u8>,
    context2: Seq<u8>,
)
    ensures
        model::derived_secret(prk1, tag1, context1) == model::derived_secret(prk2, tag2, context2)
            ==> (prk1 == prk2 && tag1 + context1 == tag2 + context2) || tag_collision(
            prk1,
            first_block(tag1 + context1),
            prk2,
            first_block(tag2 + context2),
            64,
        ),
        prk1 == prk2 && tag1 + context1 == tag2 + context2 ==> model::derived_secret(
            prk1,
            tag1,
            context1,
        ) == model::derived_secret(prk2, tag2, context2),
{
    if model::derived_secret(prk1, tag1, context1) == model::derived_secret(prk2, tag2, context2) {
        lemma_expand_collision(prk1, tag1 + context1, prk2, tag2 + context2, 64);
    }
}

/// Two seeds have one private key only for a collision: of the extraction, of the
/// expansion, or of two expansions modulo the group order.
pub proof fn law_private_key_depends_on_seed(seed1: Seq<u8>, seed2: Seq<u8>)
    requires
        model::seeded_private_key(seed1) == model::seeded_private_key(seed2),
    ensures
        ({
            let name = label("OPAQUE-DeriveKeyPair");
            let prk1 = hmac_sha512(name, seed1);
            let prk2 = hmac_sha512(name, seed2);
            ||| seed1 == seed2
            ||| mac_collision(name, seed1, name, seed2)
            ||| tag_collision(prk1, first_block(name), prk2, first_block(name), 64)
            ||| order_collision(
                hkdf_sha512_expand(prk1, name, 64),
                hkdf_sha512_expand(prk2, name, 64),
            )
        }),
{
    let name = label("OPAQUE-DeriveKeyPair");
    let prk1 = hmac_sha512(name, seed1);
    let prk2 = hmac_sha512(name, seed2);
    if hkdf_sha512_expand(prk1, name, 64) == hkdf_sha512_expand(prk2, name, 64) {
        lemma_expand_collision(prk1, name, prk2, name, 64);
    }
}

/// The session key and the two MAC keys depend on the key material of the three
/// exchanges and on the transcript. Two handshakes have one of them in common only if
/// both are equal, but for a collision: of the extraction, of the transcripts' digests,
/// or of the expansions under the extracted keys.
pub proof fn law_handshake_keys_depend_on_inputs(
    ikm1: Seq<u8>,
    transcript1: Seq<u8>,
    ikm2: Seq<u8>,
    transcript2: Seq<u8>,
)
    ensures
        ({
            let (km2_1, km3_1, session_key1) = model::handshake_keys(ikm1, transcript1);
            let (km2_2, km3_2, session_key2) = model::handshake_keys(ikm2, transcript2);
            let none = Seq::<u8>::empty();
            let prk1 = hmac_sha512(none, ikm1);
            let prk2 = hmac_sha512(none, ikm2);
            let digest1 = sha512(transcript1);
            let digest2 = sha512(transcript2);
            let secret1 = hkdf_sha512_expand(prk1, label("HandshakeSecret") + digest1, 64);
            let secret2 = hkdf_sha512_expand(prk2, label("HandshakeSecret") + digest2, 64);
            let same = ikm1 == ikm2 && transcript1 == transcript2;
            let before = mac_collision(none, ikm1, none, ikm2) || digest_collision(
                transcript1,
                transcript2,
            );
            let handshake = tag_collision(
                prk1,
                first_block(label("HandshakeSecret") + digest1),
                prk2,
                first_block(label("HandshakeSecret") + digest2),
                64,
            );
            &&& session_key1 == session_key2 ==> same || before || tag_collision(
                prk1,
                first_block(label("SessionKey") + digest1),
                prk2,
                first_block(label("SessionKey") + digest2),
                64,
            )
            &&& km2_1 == km2_2 ==> same || before || handshake || tag_collision(
                secret1,
                first_block(label("ServerMAC")),
                secret2,
                first_block(label("ServerMAC")),
                64,
            )
            &&& km3_1 == km3_2 ==> same || before || handshake || tag_collision(
                secret1,
                first_block(label("ClientMAC")),
                secret2,
                first_block(label("ClientMAC")),
                64,
            )
        }),
{
    let none = Seq::<u8>::empty();
    let prk1 = hmac_sha512(none, ikm1);
    let prk2 = hmac_sha512(none, ikm2);
    let digest1 = sha512(transcript1);
    let digest2 = sha512(transcript2);
    let secret1 = hkdf_sha512_expand(prk1, label("HandshakeSecret") + digest1, 64);
    let secret2 = hkdf_sha512_expand(prk2, label("HandshakeSecret") + digest2, 64);
    let (km2_1, km3_1, session_key1) = model::handshake_keys(ikm1, transcript1);
    let (km2_2, km3_2, session_key2) = model::handshake_keys(ikm2, transcript2);
    lemma_same_beginning(label("SessionKey"), digest1, digest2);
    lemma_same_beginning(label("HandshakeSecret"), digest1, digest2);
    assert(label("ServerMAC") + none =~= label("ServerMAC"));
    assert(label("ClientMAC") + none =~= label("ClientMAC"));
    if session_key1 == session_key2 {
        lemma_expand_collision(
            prk1,
            label("SessionKey") + digest1,
            prk2,
            label("SessionKey") + digest2,
            64,
        );
    }
    if km2_1 == km2_2 {
        lemma_expand_collision(secret1, label("ServerMAC"), secret2, label("ServerMAC"), 64);
    }
    if km3_1 == km3_2 {
        lemma_expand_collision(secret1, label("ClientMAC"), secret2, label("ClientMAC"), 64);
    }
    if secret1 == secret2 {
        lemma_expand_collision(
            prk1,
            label("HandshakeSecret") + digest1,
            prk2,
            label("HandshakeSecret") + digest2,
            64,
        );
    }
}

/// The session key and the two MAC keys are kept apart: whatever the handshakes they come
/// from, two of different kinds are equal only for a collision of the expansion on two
/// different inputs.
pub proof fn law_handshake_keys_are_separate(
    ikm1: Seq<u8>,
    transcript1: Seq<u8>,
    ikm2: Seq<u8>,
    transcript2: Seq<u8>,
)
    ensures
        ({
            let (km2_1, km3_1, session_key1) = model::handshake_keys(ikm1, transcript1);
            let (km2_2, km3_2, session_key2) = model::handshake_keys(ikm2, transcript2);
            let prk1 = hmac_sha512(Seq::empty(), ikm1);
            let prk2 = hmac_sha512(Seq::empty(), ikm2);
            let session = first_block(label("SessionKey") + sha512(transcript1));
            let secret1 = hkdf_sha512_expand(
                prk1,
                label("HandshakeSecret") + sha512(transcript1),
                64,
            );
            let secret2 = hkdf_sha512_expand(
                prk2,
                label("HandshakeSecret") + sha512(transcript2),
                64,
            );
            let server = first_block(label("ServerMAC"));
            let client = first_block(label("ClientMAC"));
            &&& session_key1 == km2_2 ==> session != server && tag_collision(
                prk1,
                session,
                secret2,
                server,
                64,
            )
            &&& session_key1 == km3_2 ==> session != client && tag_collision(
                prk1,
                session,
                secret2,
                client,
                64,
            )
            &&& km2_1 == km3_2 ==> server != client && tag_collision(
                secret1,
                server,
                secret2,
                client,
                64,
            )
        }),
{
    lemma_labels();
    let prk1 = hmac_sha512(Seq::empty(), ikm1);
    let prk2 = hmac_sha512(Seq::empty(), ikm2);
    let session = label("SessionKey") + sha512(transcript1);
    let secret1 = hkdf_sha512_expand(prk1, label("HandshakeSecret") + sha512(transcript1), 64);
    let secret2 = hkdf_sha512_expand(prk2, label("HandshakeSecret") + sha512(transcript2), 64);
    let none = Seq::<u8>::empty();
    assert(label("ServerMAC") + none =~= label("ServerMAC"));
    assert(label("ClientMAC") + none =~= label("ClientMAC"));
    law_expand_starts_with_one_tag(prk1, session, 64);
    law_expand_starts_with_one_tag(secret1, label("ServerMAC"), 64);
    law_expand_starts_with_one_tag(secret2, label("ServerMAC"), 64);
    law_expand_starts_with_one_tag(secret2, label("ClientMAC"), 64);
    assert(first_block(session)[2] == 0x73);
    assert(first_block(session)[0] == label("SessionKey")[0]);
    assert(first_block(label("ServerMAC"))[2] == 0x72);
    assert(first_block(label("ServerMAC"))[0] == 0x53);
    assert(first_block(label("ClientMAC"))[0] == 0x43);
    assert(label("SessionKey")[0] == 0x53) by {
        reveal_strlit("SessionKey");
        lemma_ascii("SessionKey"@);
    }
}

// ---------------------------------------------------------------------------
// The password
// ---------------------------------------------------------------------------

/// Two different digests that are mapped to one group element.
pub open spec fn uniform_collision(a: Seq<u8>, b: Seq<u8>) -> bool {
    a != b && ristretto_from_uniform(a) == ristretto_from_uniform(b)
}

/// Two passwords have one group element only if they are equal, byte for byte, but for a
/// collision of their digests or of the map to the group.
pub proof fn law_passwords_have_different_elements(password: Seq<u8>, other: Seq<u8>)
    requires
        model::password_element(password) == model::password_element(other),
    ensures
        password == other || digest_collision(password, other) || uniform_collision(
            sha512(password),
            sha512(other),
        ),
{
}

/// Blinding is multiplication: blinding by a product is multiplying the blinded element,
/// and blinding by one gives an element that only the password decides.
pub proof fn law_blinding_scales(password: Seq<u8>, a: nat, b: nat)
    requires
        is_group_element(model::password_element(password)),
        a < group_order(),
        b < group_order(),
    ensures
        model::blinded_element(password, (a * b) % group_order()) == ristretto_mul(
            model::blinded_element(password, a),
            b,
        ),
        model::blinded_element(password, 1) == ristretto_from_uniform(sha512(password)),
{
    lemma_group_order_bound();
    crate::laws::lemma_multiplies(model::password_element(password), a, b);
    reveal(is_group_element);
}

/// Two requests are equal exactly when the same multiple of the passwords' elements is
/// asked for.
pub proof fn law_requests_depend_on_password_and_blind(
    password1: Seq<u8>,
    blind1: nat,
    password2: Seq<u8>,
    blind2: nat,
)
    ensures
        model::registration_request(password1, blind1) == model::registration_request(
            password2,
            blind2,
        ) <==> ristretto_mul(ristretto_from_uniform(sha512(password1)), blind1) == ristretto_mul(
            ristretto_from_uniform(sha512(password2)),
            blind2,
        ),
        model::blinded_element(password1, blind1) == model::blinded_element(password2, blind2)
            <==> model::registration_request(password1, blind1) == model::registration_request(
            password2,
            blind2,
        ),
        model::registration_request(password1, blind1).blinded_element == model::blinded_element(
            password1,
            blind1,
        ),
{
}

/// Two strings of random bytes give one blinding scalar exactly when the numbers they
/// denote are equal modulo the group order; bytes that denote a scalar give that scalar.
pub proof fn law_blind_scalar_is_the_number_drawn(random1: Seq<u8>, random2: Seq<u8>)
    ensures
        model::blind_scalar(random1) == model::blind_scalar(random2) <==> le_value(random1)
            % group_order() == le_value(random2) % group_order(),
        le_value(random1) < group_order() ==> model::blind_scalar(random1) == le_value(random1),
        model::blind_scalar(random1) < group_order(),
{
    lemma_group_order_bound();
    if le_value(random1) < group_order() {
        vstd::arithmetic::div_mod::lemma_small_mod(le_value(random1), group_order());
    }
}

/// Every credential identifier has an evaluation key of its own under each seed: two of
/// them have one key only for a collision of the expansion, or of two expansions modulo
/// the group order.
pub proof fn law_evaluation_key_depends_on_identifier(
    seed1: Seq<u8>,
    identifier1: Seq<u8>,
    seed2: Seq<u8>,
    identifier2: Seq<u8>,
)
    requires
        model::oprf_key(seed1, identifier1) == model::oprf_key(seed2, identifier2),
    ensures
        ({
            let info1 = identifier1 + label("OprfKey");
            let info2 = identifier2 + label("OprfKey");
            ||| seed1 == seed2 && identifier1 == identifier2
            ||| tag_collision(seed1, first_block(info1), seed2, first_block(info2), 64)
            ||| order_collision(
                hkdf_sha512_expand(seed1, info1, 64),
                hkdf_sha512_expand(seed2, info2, 64),
            )
        }),
{
    let info1 = identifier1 + label("OprfKey");
    let info2 = identifier2 + label("OprfKey");
    lemma_same_ending(identifier1, identifier2, label("OprfKey"));
    if hkdf_sha512_expand(seed1, info1, 64) == hkdf_sha512_expand(seed2, info2, 64) {
        lemma_expand_collision(seed1, info1, seed2, info2, 64);
    }
}

/// The server's evaluation is multiplication by one key for each client: it commutes with
/// every other multiplication, and for two clients or servers it gives the same answer
/// exactly when the multiples under their keys are equal.
pub proof fn law_evaluation_multiplies(
    server: ServerView,
    identifier: Seq<u8>,
    element: Seq<u8>,
    scalar: nat,
    other: ServerView,
    other_identifier: Seq<u8>,
    other_element: Seq<u8>,
)
    requires
        is_group_element(element),
        scalar < group_order(),
    ensures
        model::evaluated_element(server, identifier, ristretto_mul(element, scalar))
            == ristretto_mul(model::evaluated_element(server, identifier, element), scalar),
        model::evaluated_element(server, identifier, element) == model::evaluated_element(
            other,
            other_identifier,
            other_element,
        ) <==> ristretto_mul(
            element,
            le_value(hkdf_sha512_expand(server.oprf_seed, identifier + label("OprfKey"), 64))
                % group_order(),
        ) == ristretto_mul(
            other_element,
            le_value(
                hkdf_sha512_expand(other.oprf_seed, other_identifier + label("OprfKey"), 64),
            ) % group_order(),
        ),
{
    lemma_group_order_bound();
    let key = model::oprf_key(server.oprf_seed, identifier);
    crate::laws::lemma_multiplies(element, scalar, key);
    crate::laws::lemma_multiplies(element, key, scalar);
    assert(scalar * key == key * scalar) by (nonlinear_arith);
}

/// The answers to a registration request and to KE1 with one blinded element hold the same
/// evaluation, and both hold the server's public key.
pub proof fn law_registration_and_login_evaluate_alike(
    server: ServerView,
    identifier: Seq<u8>,
    request: RegistrationRequestView,
    ke1: Ke1View,
    record: RegistrationRecordView,
    client_identity: Seq<u8>,
    keyshare_seed: Seq<u8>,
    server_nonce: Seq<u8>,
)
    requires
        request.blinded_element == ke1.blinded_element,
    ensures
        ({
            let response = model::registration_response(server, identifier, request);
            let ke2 = model::login_response(
                server,
                identifier,
                ke1,
                record,
                client_identity,
                keyshare_seed,
                server_nonce,
            ).ke2;
            &&& response.evaluated_element == ke2.evaluated_element
            &&& response.evaluated_element == model::evaluated_element(
                server,
                identifier,
                request.blinded_element,
            )
            &&& response.server_public_key == server.static_pk
            &&& ke2.server_public_key == server.static_pk
        }),
{
}

/// The output of the pseudorandom function depends on the unblinded element alone: two
/// outputs are equal exactly when the elements are, but for a collision of the digest.
pub proof fn law_oprf_output_depends_on_element(
    evaluated1: Seq<u8>,
    blind1: nat,
    evaluated2: Seq<u8>,
    blind2: nat,
)
    ensures
        ({
            let element1 = ristretto_mul(evaluated1, scalar_inverse(blind1));
            let element2 = ristretto_mul(evaluated2, scalar_inverse(blind2));
            &&& element1 == element2 ==> model::oprf_output(evaluated1, blind1)
                == model::oprf_output(evaluated2, blind2)
            &&& model::oprf_output(evaluated1, blind1) == model::oprf_output(evaluated2, blind2)
                ==> element1 == element2 || digest_collision(element1, element2)
        }),
{
}

/// Stretching leaves every input as it is.
pub proof fn law_stretching_is_the_identity(msg: Seq<u8>)
    ensures
        model::stretched(msg) == msg,
{
}

/// Two outputs have one randomized password only for a collision of the extraction.
pub proof fn law_randomized_password_depends_on_output(output1: Seq<u8>, output2: Seq<u8>)
    requires
        model::randomized_password(output1) == model::randomized_password(output2),
    ensures
        output1 == output2 || mac_collision(
            Seq::empty(),
            output1 + output1,
            Seq::empty(),
            output2 + output2,
        ),
{
    if output1 + output1 == output2 + output2 {
        assert((output1 + output1).len() == 2 * output1.len());
        assert((output2 + output2).len() == 2 * output2.len());
        lemma_split(output1, output1, output2, output2);
    }
}

/// Two clients recover one randomized password only if they unblind one element, but for
/// a collision of the digest or of the extraction.
pub proof fn law_recovered_password_depends_on_element(
    evaluated1: Seq<u8>,
    blind1: nat,
    evaluated2: Seq<u8>,
    blind2: nat,
)
    requires
        model::recovered_password(evaluated1, blind1) == model::recovered_password(
            evaluated2,
            blind2,
        ),
    ensures
        ({
            let element1 = ristretto_mul(evaluated1, scalar_inverse(blind1));
            let element2 = ristretto_mul(evaluated2, scalar_inverse(blind2));
            ||| element1 == element2
            ||| digest_collision(element1, element2)
            ||| mac_collision(
                Seq::empty(),
                sha512(element1) + sha512(element1),
                Seq::empty(),
                sha512(element2) + sha512(element2),
            )
        }),
{
    let element1 = ristretto_mul(evaluated1, scalar_inverse(blind1));
    let element2 = ristretto_mul(evaluated2, scalar_inverse(blind2));
    law_randomized_password_depends_on_output(sha512(element1), sha512(element2));
}

// ---------------------------------------------------------------------------
// The envelope and the record
// ---------------------------------------------------------------------------

/// The keys that come from a randomized password depend on it, and all but the masking key
/// on the nonce: two of one kind are equal only if these are, but for a collision of the
/// expansion. The nonces have one length.
pub proof fn law_envelope_keys_depend_on_password_and_nonce(
    rand_pwd1: Seq<u8>,
    nonce1: Seq<u8>,
    rand_pwd2: Seq<u8>,
    nonce2: Seq<u8>,
)
    ensures
        model::masking_key(rand_pwd1) == model::masking_key(rand_pwd2) ==> rand_pwd1 == rand_pwd2
            || tag_collision(
            rand_pwd1,
            first_block(label("MaskingKey")),
            rand_pwd2,
            first_block(label("MaskingKey")),
            64,
        ),
        model::auth_key(rand_pwd1, nonce1) == model::auth_key(rand_pwd2, nonce2) ==> (rand_pwd1
            == rand_pwd2 && nonce1 == nonce2) || tag_collision(
            rand_pwd1,
            first_block(nonce1 + label("AuthKey")),
            rand_pwd2,
            first_block(nonce2 + label("AuthKey")),
            64,
        ),
        model::export_key(rand_pwd1, nonce1) == model::export_key(rand_pwd2, nonce2) ==> (rand_pwd1
            == rand_pwd2 && nonce1 == nonce2) || tag_collision(
            rand_pwd1,
            first_block(nonce1 + label("ExportKey")),
            rand_pwd2,
            first_block(nonce2 + label("ExportKey")),
            64,
        ),
{
    if model::masking_key(rand_pwd1) == model::masking_key(rand_pwd2) {
        lemma_expand_collision(rand_pwd1, label("MaskingKey"), rand_pwd2, label("MaskingKey"), 64);
    }
    lemma_same_ending(nonce1, nonce2, label("AuthKey"));
    if model::auth_key(rand_pwd1, nonce1) == model::auth_key(rand_pwd2, nonce2) {
        lemma_expand_collision(
            rand_pwd1,
            nonce1 + label("AuthKey"),
            rand_pwd2,
            nonce2 + label("AuthKey"),
            64,
        );
    }
    lemma_same_ending(nonce1, nonce2, label("ExportKey"));
    if model::export_key(rand_pwd1, nonce1) == model::export_key(rand_pwd2, nonce2) {
        lemma_expand_collision(
            rand_pwd1,
            nonce1 + label("ExportKey"),
            rand_pwd2,
            nonce2 + label("ExportKey"),
            64,
        );
    }
}

/// The export key is separate from the masking key, which the server stores, and from the
/// authentication key: whatever the randomized passwords and nonces, two keys of different
/// kinds are equal only for a collision of the expansion on two different inputs. The
/// nonces have 32 bytes.
pub proof fn law_envelope_keys_are_separate(
    rand_pwd1: Seq<u8>,
    nonce1: Seq<u8>,
    rand_pwd2: Seq<u8>,
    nonce2: Seq<u8>,
)
    requires
        nonce1.len() == 32,
        nonce2.len() == 32,
    ensures
        ({
            let masking = first_block(label("MaskingKey"));
            let auth1 = first_block(nonce1 + label("AuthKey"));
            let auth2 = first_block(nonce2 + label("AuthKey"));
            let export1 = first_block(nonce1 + label("ExportKey"));
            &&& export1 != masking && export1 != auth2 && auth1 != masking
            &&& model::export_key(rand_pwd1, nonce1) == model::masking_key(rand_pwd2)
                ==> tag_collision(rand_pwd1, export1, rand_pwd2, masking, 64)
            &&& model::export_key(rand_pwd1, nonce1) == model::auth_key(rand_pwd2, nonce2)
                ==> tag_collision(rand_pwd1, export1, rand_pwd2, auth2, 64)
            &&& model::auth_key(rand_pwd1, nonce1) == model::masking_key(rand_pwd2)
                ==> tag_collision(rand_pwd1, auth1, rand_pwd2, masking, 64)
        }),
{
    lemma_labels();
    law_expand_starts_with_one_tag(rand_pwd2, label("MaskingKey"), 64);
    law_expand_starts_with_one_tag(rand_pwd1, nonce1 + label("AuthKey"), 64);
    law_expand_starts_with_one_tag(rand_pwd2, nonce2 + label("AuthKey"), 64);
    law_expand_starts_with_one_tag(rand_pwd1, nonce1 + label("ExportKey"), 64);
    assert(first_block(label("MaskingKey")).len() == 11);
    assert(first_block(nonce1 + label("AuthKey")).len() == 40);
    assert(first_block(nonce2 + label("AuthKey")).len() == 40);
    assert(first_block(nonce1 + label("ExportKey")).len() == 42);
}

/// Two randomized passwords or nonces give one client key pair only for a collision: of
/// the expansion to the seed, or of the derivation from the seed.
pub proof fn law_client_key_depends_on_password_and_nonce(
    rand_pwd1: Seq<u8>,
    nonce1: Seq<u8>,
    rand_pwd2: Seq<u8>,
    nonce2: Seq<u8>,
)
    requires
        model::client_private_key(rand_pwd1, nonce1) == model::client_private_key(
            rand_pwd2,
            nonce2,
        ),
    ensures
        ({
            let info1 = nonce1 + label("PrivateKey");
            let info2 = nonce2 + label("PrivateKey");
            let seed1 = hkdf_sha512_expand(rand_pwd1, info1, 32);
            let seed2 = hkdf_sha512_expand(rand_pwd2, info2, 32);
            let name = label("OPAQUE-DeriveKeyPair");
            let prk1 = hmac_sha512(name, seed1);
            let prk2 = hmac_sha512(name, seed2);
            ||| rand_pwd1 == rand_pwd2 && nonce1 == nonce2
            ||| tag_collision(rand_pwd1, first_block(info1), rand_pwd2, first_block(info2), 32)
            ||| mac_collision(name, seed1, name, seed2)
            ||| tag_collision(prk1, first_block(name), prk2, first_block(name), 64)
            ||| order_collision(
                hkdf_sha512_expand(prk1, name, 64),
                hkdf_sha512_expand(prk2, name, 64),
            )
        }),
{
    let info1 = nonce1 + label("PrivateKey");
    let info2 = nonce2 + label("PrivateKey");
    let seed1 = hkdf_sha512_expand(rand_pwd1, info1, 32);
    let seed2 = hkdf_sha512_expand(rand_pwd2, info2, 32);
    law_private_key_depends_on_seed(seed1, seed2);
    lemma_same_ending(nonce1, nonce2, label("PrivateKey"));
    if seed1 == seed2 {
        lemma_expand_collision(rand_pwd1, info1, rand_pwd2, info2, 32);
    }
}

/// Two envelope tags are equal exactly when the MACs of the two envelope messages are,
/// each under the key that the randomized password and the nonce expand to.
pub proof fn law_envelope_tag_is_a_mac(
    rand_pwd1: Seq<u8>,
    nonce1: Seq<u8>,
    server_pk1: Seq<u8>,
    server_identity1: Seq<u8>,
    client_identity1: Seq<u8>,
    rand_pwd2: Seq<u8>,
    nonce2: Seq<u8>,
    server_pk2: Seq<u8>,
    server_identity2: Seq<u8>,
    client_identity2: Seq<u8>,
)
    ensures
        model::envelope_tag(rand_pwd1, nonce1, server_pk1, server_identity1, client_identity1)
            == model::envelope_tag(
            rand_pwd2,
            nonce2,
            server_pk2,
            server_identity2,
            client_identity2,
        ) <==> hmac_sha512(
            hkdf_sha512_expand(rand_pwd1, nonce1 + label("AuthKey"), 64),
            model::envelope_message(nonce1, server_pk1, server_identity1, client_identity1),
        ) == hmac_sha512(
            hkdf_sha512_expand(rand_pwd2, nonce2 + label("AuthKey"), 64),
            model::envelope_message(nonce2, server_pk2, server_identity2, client_identity2),
        ),
{
}

/// What a finished registration consists of: of two registrations, the records and the
/// export keys have a part in common only if what the part comes from is in common, but
/// for a collision; and the export key of either is not the masking key that the other
/// sends to the server, but for a collision on two different inputs.
pub proof fn law_registration_outputs(
    blind1: nat,
    response1: RegistrationResponseView,
    server_identity1: Seq<u8>,
    client_identity1: Seq<u8>,
    nonce1: Seq<u8>,
    finished1: (RegistrationRecord, [u8; NH]),
    blind2: nat,
    response2: RegistrationResponseView,
    server_identity2: Seq<u8>,
    client_identity2: Seq<u8>,
    nonce2: Seq<u8>,
    finished2: (RegistrationRecord, [u8; NH]),
)
    requires
        registration_finished(
            blind1,
            response1,
            server_identity1,
            client_identity1,
            nonce1,
            finished1,
        ),
        registration_finished(
            blind2,
            response2,
            server_identity2,
            client_identity2,
            nonce2,
            finished2,
        ),
        nonce1.len() == 32,
        nonce2.len() == 32,
    ensures
        finished1.0.envelope_nonce@ == nonce1,
        ({
            let output1 = sha512(
                ristretto_mul(response1.evaluated_element, scalar_inverse(blind1)),
            );
            let output2 = sha512(
                ristretto_mul(response2.evaluated_element, scalar_inverse(blind2)),
            );
            let rand_pwd1 = hmac_sha512(Seq::empty(), output1 + output1);
            let rand_pwd2 = hmac_sha512(Seq::empty(), output2 + output2);
            let masking = first_block(label("MaskingKey"));
            let export1 = first_block(nonce1 + label("ExportKey"));
            let export2 = first_block(nonce2 + label("ExportKey"));
            &&& finished1.0.masking_key@ == finished2.0.masking_key@ ==> rand_pwd1 == rand_pwd2
                || tag_collision(rand_pwd1, masking, rand_pwd2, masking, 64)
            &&& finished1.1@ == finished2.1@ ==> (rand_pwd1 == rand_pwd2 && nonce1 == nonce2)
                || tag_collision(rand_pwd1, export1, rand_pwd2, export2, 64)
            &&& export1 != masking
            &&& finished1.1@ == finished2.0.masking_key@ ==> tag_collision(
                rand_pwd1,
                export1,
                rand_pwd2,
                masking,
                64,
            )
            &&& finished1.0.envelope_auth_tag@ == finished2.0.envelope_auth_tag@ <==> hmac_sha512(
                hkdf_sha512_expand(rand_pwd1, nonce1 + label("AuthKey"), 64),
                model::envelope_message(
                    nonce1,
                    response1.server_public_key,
                    server_identity1,
                    client_identity1,
                ),
            ) == hmac_sha512(
                hkdf_sha512_expand(rand_pwd2, nonce2 + label("AuthKey"), 64),
                model::envelope_message(
                    nonce2,
                    response2.server_public_key,
                    server_identity2,
                    client_identity2,
                ),
            )
            &&& finished1.0.client_public_key@ == model::public_key(
                model::client_private_key(rand_pwd1, nonce1),
            )
        }),
{
    let rand_pwd1 = model::recovered_password(response1.evaluated_element, blind1);
    let rand_pwd2 = model::recovered_password(response2.evaluated_element, blind2);
    law_envelope_keys_depend_on_password_and_nonce(rand_pwd1, nonce1, rand_pwd2, nonce2);
    law_envelope_keys_are_separate(rand_pwd1, nonce1, rand_pwd2, nonce2);
    assert(finished1.0@.envelope_nonce == nonce1);
    assert(finished1.0@.masking_key == model::masking_key(rand_pwd1));
    assert(finished2.0@.masking_key == model::masking_key(rand_pwd2));
    assert(finished1.0@.envelope_auth_tag == finished1.0.envelope_auth_tag@);
    assert(finished2.0@.envelope_auth_tag == finished2.0.envelope_auth_tag@);
    assert(finished1.0@.client_public_key == finished1.0.client_public_key@);
}

/// Public keys are multiples of the base point: two are equal exactly when the multiples
/// are.
pub proof fn law_public_key_is_a_multiple(private_key1: nat, private_key2: nat)
    ensures
        model::public_key(private_key1) == model::public_key(private_key2) <==> ristretto_mul(
            ristretto_basepoint(),
            private_key1,
        ) == ristretto_mul(ristretto_basepoint(), private_key2),
        is_key_pair(private_key1, model::public_key(private_key1)) ==> model::public_key(
            private_key1,
        ) == ristretto_mul(ristretto_basepoint(), private_key1),
{
    reveal(is_key_pair);
}

/// A server keeps its identity and its seed as they are given, and two servers have one
/// private key exactly when their key seeds denote one number modulo the group order.
pub proof fn law_server_of_its_seeds(
    identity1: Seq<u8>,
    oprf_seed1: Seq<u8>,
    key_seed1: Seq<u8>,
    identity2: Seq<u8>,
    oprf_seed2: Seq<u8>,
    key_seed2: Seq<u8>,
)
    ensures
        ({
            let server1 = model::seeded_server(identity1, oprf_seed1, key_seed1);
            let server2 = model::seeded_server(identity2, oprf_seed2, key_seed2);
            &&& server1.identity == identity1
            &&& server1.oprf_seed == oprf_seed1
            &&& server1.static_sk == server2.static_sk <==> le_value(key_seed1) % group_order()
                == le_value(key_seed2) % group_order()
            &&& le_value(key_seed1) < group_order() ==> server1.static_sk == le_value(key_seed1)
            &&& server1.static_pk == ristretto_mul(ristretto_basepoint(), server1.static_sk)
        }),
{
    lemma_group_order_bound();
    if le_value(key_seed1) < group_order() {
        vstd::arithmetic::div_mod::lemma_small_mod(le_value(key_seed1), group_order());
    }
}

// ---------------------------------------------------------------------------
// Layouts
// ---------------------------------------------------------------------------

/// Whether a text holds a part from a place on.
pub open spec fn holds_at(text: Seq<u8>, place: int, part: Seq<u8>) -> bool {
    &&& place + part.len() <= text.len()
    &&& text.subrange(place, place + part.len()) == part
}

/// Whether a text holds a number, modulo 2^16, in two bytes from a place on, the high one
/// first.
pub open spec fn holds_u16_at(text: Seq<u8>, place: int, number: nat) -> bool {
    &&& place + 2 <= text.len()
    &&& text[place] * 256 + text[place + 1] == number % 0x1_0000
}

/// The two bytes of a number denote it modulo 2^16.
proof fn lemma_u16(number: nat)
    ensures
        u16_be(number).len() == 2,
        u16_be(number)[0] * 256 + u16_be(number)[1] == number % 0x1_0000,
{
    assert(number % 0x100 == (number % 0x1_0000) % 0x100);
    assert((number % 0x1_0000) / 0x100 < 0x100);
}

/// Where the parts of the envelope message stand, whatever their lengths.
pub proof fn law_envelope_message_layout(
    nonce: Seq<u8>,
    server_pk: Seq<u8>,
    server_identity: Seq<u8>,
    client_identity: Seq<u8>,
)
    ensures
        ({
            let message = model::envelope_message(
                nonce,
                server_pk,
                server_identity,
                client_identity,
            );
            let a = nonce.len() as int;
            let b = a + server_pk.len();
            let c = b + 2 + server_identity.len();
            &&& message.len() == c + 2 + client_identity.len()
            &&& holds_at(message, 0, nonce)
            &&& holds_at(message, a, server_pk)
            &&& holds_u16_at(message, b, server_identity.len())
            &&& holds_at(message, b + 2, server_identity)
            &&& holds_u16_at(message, c, client_identity.len())
            &&& holds_at(message, c + 2, client_identity)
        }),
{
    let message = model::envelope_message(nonce, server_pk, server_identity, client_identity);
    let a = nonce.len() as int;
    let b = a + server_pk.len();
    let c = b + 2 + server_identity.len();
    lemma_u16(server_identity.len());
    lemma_u16(client_identity.len());
    assert(message.subrange(0, a) =~= nonce);
    assert(message.subrange(a, b) =~= server_pk);
    assert(message.subrange(b + 2, c) =~= server_identity);
    assert(message.subrange(c + 2, c + 2 + client_identity.len()) =~= client_identity);
    assert(message[b] == u16_be(server_identity.len())[0]);
    assert(message[b + 1] == u16_be(server_identity.len())[1]);
    assert(message[c] == u16_be(client_identity.len())[0]);
    assert(message[c + 1] == u16_be(client_identity.len())[1]);
}

/// Where the fields of KE1 stand on the wire.
pub proof fn law_ke1_layout(ke1: Ke1View)
    ensures
        ({
            let encoding = model::ke1_encoding(ke1);
            let a = ke1.blinded_element.len() as int;
            let b = a + ke1.client_nonce.len();
            &&& encoding.len() == b + ke1.client_ephemeral_pk.len()
            &&& holds_at(encoding, 0, ke1.blinded_element)
            &&& holds_at(encoding, a, ke1.client_nonce)
            &&& holds_at(encoding, b, ke1.client_ephemeral_pk)
        }),
{
    let encoding = model::ke1_encoding(ke1);
    let a = ke1.blinded_element.len() as int;
    let b = a + ke1.client_nonce.len();
    assert(encoding.subrange(0, a) =~= ke1.blinded_element);
    assert(encoding.subrange(a, b) =~= ke1.client_nonce);
    assert(encoding.subrange(b, b + ke1.client_ephemeral_pk.len()) =~= ke1.client_ephemeral_pk);
}

/// Where the fields of the credential response stand on the wire.
pub proof fn law_credential_response_layout(ke2: Ke2View)
    ensures
        ({
            let encoding = model::credential_response_encoding(ke2);
            let a = ke2.evaluated_element.len() as int;
            let b = a + ke2.envelope_nonce.len();
            let c = b + ke2.envelope_auth_tag.len();
            &&& encoding.len() == c + ke2.server_public_key.len()
            &&& holds_at(encoding, 0, ke2.evaluated_element)
            &&& holds_at(encoding, a, ke2.envelope_nonce)
            &&& holds_at(encoding, b, ke2.envelope_auth_tag)
            &&& holds_at(encoding, c, ke2.server_public_key)
        }),
{
    let encoding = model::credential_response_encoding(ke2);
    let a = ke2.evaluated_element.len() as int;
    let b = a + ke2.envelope_nonce.len();
    let c = b + ke2.envelope_auth_tag.len();
    assert(encoding.subrange(0, a) =~= ke2.evaluated_element);
    assert(encoding.subrange(a, b) =~= ke2.envelope_nonce);
    assert(encoding.subrange(b, c) =~= ke2.envelope_auth_tag);
    assert(encoding.subrange(c, c + ke2.server_public_key.len()) =~= ke2.server_public_key);
}

/// Where the parts of the transcript stand, whatever their lengths.
pub proof fn law_preamble_layout(
    client_identity: Seq<u8>,
    ke1: Ke1View,
    server_identity: Seq<u8>,
    ke2: Ke2View,
)
    ensures
        ({
            let transcript = model::preamble(client_identity, ke1, server_identity, ke2);
            let message1 = model::ke1_encoding(ke1);
            let response = model::credential_response_encoding(ke2);
            let a = label("OPAQUEv1-").len() as int;
            let b = a + 4 + client_identity.len();
            let c = b + message1.len();
            let d = c + 2 + server_identity.len();
            let e = d + response.len();
            let f = e + ke2.server_nonce.len();
            &&& transcript.len() == f + ke2.server_ephemeral_pk.len()
            &&& holds_at(transcript, 0, label("OPAQUEv1-"))
            &&& holds_u16_at(transcript, a, 0)
            &&& holds_u16_at(transcript, a + 2, client_identity.len())
            &&& holds_at(transcript, a + 4, client_identity)
            &&& holds_at(transcript, b, message1)
            &&& holds_u16_at(transcript, c, server_identity.len())
            &&& holds_at(transcript, c + 2, server_identity)
            &&& holds_at(transcript, d, response)
            &&& holds_at(transcript, e, ke2.server_nonce)
            &&& holds_at(transcript, f, ke2.server_ephemeral_pk)
        }),
{
    let transcript = model::preamble(client_identity, ke1, server_identity, ke2);
    let message1 = model::ke1_encoding(ke1);
    let response = model::credential_response_encoding(ke2);
    let a = label("OPAQUEv1-").len() as int;
    let b = a + 4 + client_identity.len();
    let c = b + message1.len();
    let d = c + 2 + server_identity.len();
    let e = d + response.len();
    let f = e + ke2.server_nonce.len();
    lemma_u16(0);
    lemma_u16(client_identity.len());
    lemma_u16(server_identity.len());
    assert(transcript.subrange(0, a) =~= label("OPAQUEv1-"));
    assert(transcript[a] == u16_be(0)[0] && transcript[a + 1] == u16_be(0)[1]);
    assert(transcript[a + 2] == u16_be(client_identity.len())[0]);
    assert(transcript[a + 3] == u16_be(client_identity.len())[1]);
    assert(transcript.subrange(a + 4, b) =~= client_identity);
    assert(transcript.subrange(b, c) =~= message1);
    assert(transcript[c] == u16_be(server_identity.len())[0]);
    assert(transcript[c + 1] == u16_be(server_identity.len())[1]);
    assert(transcript.subrange(c + 2, d) =~= server_identity);
    assert(transcript.subrange(d, e) =~= response);
    assert(transcript.subrange(e, f) =~= ke2.server_nonce);
    assert(transcript.subrange(f, f + ke2.server_ephemeral_pk.len()) =~= ke2.server_ephemeral_pk);
}

// ---------------------------------------------------------------------------
// The handshake
// ---------------------------------------------------------------------------

/// The server's MAC depends on its key and on the transcript, and the client's MAC on its
/// key, the transcript and the server's MAC: two are equal only if these are, but for a
/// collision of the digest or of the MAC.
pub proof fn law_macs_depend_on_key_and_transcript(
    key1: Seq<u8>,
    transcript1: Seq<u8>,
    server_mac1: Seq<u8>,
    key2: Seq<u8>,
    transcript2: Seq<u8>,
    server_mac2: Seq<u8>,
)
    ensures
        model::server_mac(key1, transcript1) == model::server_mac(key2, transcript2) ==> (key1
            == key2 && transcript1 == transcript2) || digest_collision(transcript1, transcript2)
            || mac_collision(key1, sha512(transcript1), key2, sha512(transcript2)),
        ({
            let text1 = transcript1 + server_mac1;
            let text2 = transcript2 + server_mac2;
            model::client_mac(key1, transcript1, server_mac1) == model::client_mac(
                key2,
                transcript2,
                server_mac2,
            ) ==> (key1 == key2 && text1 == text2) || digest_collision(text1, text2)
                || mac_collision(key1, sha512(text1), key2, sha512(text2))
        }),
        model::server_mac(key1, transcript1) == model::client_mac(key2, transcript2, server_mac2)
            ==> hmac_sha512(key1, sha512(transcript1)) == hmac_sha512(
            key2,
            sha512(transcript2 + server_mac2),
        ),
{
}

/// The key material holds the three shared elements, one after the other: two are equal
/// exactly when all three elements are.
pub proof fn law_key_material_depends_on_all_exchanges(
    static_sk1: nat,
    ephemeral_sk1: nat,
    peer_ephemeral_pk1: Seq<u8>,
    peer_static_pk1: Seq<u8>,
    static_sk2: nat,
    ephemeral_sk2: nat,
    peer_ephemeral_pk2: Seq<u8>,
    peer_static_pk2: Seq<u8>,
)
    requires
        static_sk1 < group_order(),
        ephemeral_sk1 < group_order(),
        is_group_element(peer_ephemeral_pk1),
        is_group_element(peer_static_pk1),
        static_sk2 < group_order(),
        ephemeral_sk2 < group_order(),
        is_group_element(peer_ephemeral_pk2),
        is_group_element(peer_static_pk2),
    ensures
        model::server_key_material(
            static_sk1,
            ephemeral_sk1,
            peer_ephemeral_pk1,
            peer_static_pk1,
        ) == model::server_key_material(
            static_sk2,
            ephemeral_sk2,
            peer_ephemeral_pk2,
            peer_static_pk2,
        ) <==> {
            &&& ristretto_mul(peer_ephemeral_pk1, ephemeral_sk1) == ristretto_mul(
                peer_ephemeral_pk2,
                ephemeral_sk2,
            )
            &&& ristretto_mul(peer_ephemeral_pk1, static_sk1) == ristretto_mul(
                peer_ephemeral_pk2,
                static_sk2,
            )
            &&& ristretto_mul(peer_static_pk1, ephemeral_sk1) == ristretto_mul(
                peer_static_pk2,
                ephemeral_sk2,
            )
        },
        model::client_key_material(
            static_sk1,
            ephemeral_sk1,
            peer_ephemeral_pk1,
            peer_static_pk1,
        ) == model::client_key_material(
            static_sk2,
            ephemeral_sk2,
            peer_ephemeral_pk2,
            peer_static_pk2,
        ) <==> {
            &&& ristretto_mul(peer_ephemeral_pk1, ephemeral_sk1) == ristretto_mul(
                peer_ephemeral_pk2,
                ephemeral_sk2,
            )
            &&& ristretto_mul(peer_static_pk1, ephemeral_sk1) == ristretto_mul(
                peer_static_pk2,
                ephemeral_sk2,
            )
            &&& ristretto_mul(peer_ephemeral_pk1, static_sk1) == ristretto_mul(
                peer_ephemeral_pk2,
                static_sk2,
            )
        },
{
    let x1 = ristretto_mul(peer_ephemeral_pk1, ephemeral_sk1);
    let x2 = ristretto_mul(peer_ephemeral_pk2, ephemeral_sk2);
    let y1 = ristretto_mul(peer_ephemeral_pk1, static_sk1);
    let y2 = ristretto_mul(peer_ephemeral_pk2, static_sk2);
    let z1 = ristretto_mul(peer_static_pk1, ephemeral_sk1);
    let z2 = ristretto_mul(peer_static_pk2, ephemeral_sk2);
    assert(x1.len() == 32 && x2.len() == 32 && y1.len() == 32 && y2.len() == 32 && z1.len() == 32
        && z2.len() == 32) by {
        reveal(is_group_element);
    }
    if x1 + y1 + z1 == x2 + y2 + z2 {
        lemma_split(x1 + y1, z1, x2 + y2, z2);
        lemma_split(x1, y1, x2, y2);
    }
    if x1 + z1 + y1 == x2 + z2 + y2 {
        lemma_split(x1 + z1, y1, x2 + z2, y2);
        lemma_split(x1, z1, x2, z2);
    }
}

/// The tag that makes the session key: under the extracted key material, over the label
/// and the digest of the transcript.
pub open spec fn session_tag(material: Seq<u8>, transcript: Seq<u8>) -> Seq<u8> {
    tag_start(
        hmac_sha512(Seq::empty(), material),
        label("SessionKey") + sha512(transcript) + seq![1u8],
        64,
    )
}

/// The tag that makes a MAC key: under the tag that makes the handshake secret, over the
/// label of the side whose MAC it is for.
pub open spec fn mac_key_tag(material: Seq<u8>, transcript: Seq<u8>, side: Seq<u8>) -> Seq<u8> {
    tag_start(
        tag_start(
            hmac_sha512(Seq::empty(), material),
            label("HandshakeSecret") + sha512(transcript) + seq![1u8],
            64,
        ),
        side + seq![1u8],
        64,
    )
}

/// The three keys of a handshake, as tags.
proof fn lemma_handshake_tags(material: Seq<u8>, transcript: Seq<u8>)
    ensures
        model::handshake_keys(material, transcript) == (
            mac_key_tag(material, transcript, label("ServerMAC")),
            mac_key_tag(material, transcript, label("ClientMAC")),
            session_tag(material, transcript),
        ),
{
    let prk = hmac_sha512(Seq::empty(), material);
    let digest = sha512(transcript);
    let none = Seq::<u8>::empty();
    assert(label("ServerMAC") + none =~= label("ServerMAC"));
    assert(label("ClientMAC") + none =~= label("ClientMAC"));
    law_expand_starts_with_one_tag(prk, label("SessionKey") + digest, 64);
    law_expand_starts_with_one_tag(prk, label("HandshakeSecret") + digest, 64);
    let secret = hkdf_sha512_expand(prk, label("HandshakeSecret") + digest, 64);
    law_expand_starts_with_one_tag(secret, label("ServerMAC"), 64);
    law_expand_starts_with_one_tag(secret, label("ClientMAC"), 64);
}

/// What the answer to KE1 is made of: the record's envelope, the server's public key, the
/// drawn nonce and the key of the drawn seed stand in KE2 as they are; the server's MAC,
/// the MAC that the session waits for and the session key come from all three exchanges
/// and from the whole transcript.
pub proof fn law_login_start_result(
    before: SessionView,
    ke1: Ke1View,
    record: RegistrationRecordView,
    client_identity: Seq<u8>,
    keyshare_seed: Seq<u8>,
    server_nonce: Seq<u8>,
    after: SessionView,
    result: Result<Ke2, OpaqueError>,
)
    requires
        before.phase is Idle,
        login_start_step(
            before,
            ke1,
            record,
            client_identity,
            keyshare_seed,
            server_nonce,
            after,
            result,
        ),
    ensures
        result is Ok,
        ({
            let ke2 = result->Ok_0@;
            let server = before.server;
            let ephemeral_sk = model::seeded_private_key(keyshare_seed);
            let material = ristretto_mul(ke1.client_ephemeral_pk, ephemeral_sk) + ristretto_mul(
                ke1.client_ephemeral_pk,
                server.static_sk,
            ) + ristretto_mul(record.client_public_key, ephemeral_sk);
            let transcript = model::preamble(client_identity, ke1, server.identity, ke2);
            &&& ke2.evaluated_element == model::evaluated_element(
                server,
                before.credential_identifier,
                ke1.blinded_element,
            )
            &&& ke2.envelope_nonce == record.envelope_nonce
            &&& ke2.envelope_auth_tag == record.envelope_auth_tag
            &&& ke2.server_public_key == server.static_pk
            &&& ke2.server_nonce == server_nonce
            &&& ke2.server_ephemeral_pk == ristretto_mul(ristretto_basepoint(), ephemeral_sk)
            &&& ke2.server_mac == hmac_sha512(
                mac_key_tag(material, transcript, label("ServerMAC")),
                sha512(transcript),
            )
            &&& after.phase == (SessionPhase::LoginAwaitingKe3 {
                expected_client_mac: hmac_sha512(
                    mac_key_tag(material, transcript, label("ClientMAC")),
                    sha512(transcript + ke2.server_mac),
                ),
                session_key: session_tag(material, transcript),
            })
            &&& after.server == before.server
            &&& after.credential_identifier == before.credential_identifier
        }),
{
    let ke2 = result->Ok_0@;
    let server = before.server;
    let ephemeral_sk = model::seeded_private_key(keyshare_seed);
    let material = ristretto_mul(ke1.client_ephemeral_pk, ephemeral_sk) + ristretto_mul(
        ke1.client_ephemeral_pk,
        server.static_sk,
    ) + ristretto_mul(record.client_public_key, ephemeral_sk);
    let unsigned = model::unauthenticated_ke2(
        server,
        before.credential_identifier,
        ke1,
        record,
        keyshare_seed,
        server_nonce,
    );
    crate::laws::law_preamble_precedes_server_mac(
        client_identity,
        ke1,
        server.identity,
        unsigned,
        ke2.server_mac,
    );
    lemma_handshake_tags(
        material,
        model::preamble(client_identity, ke1, server.identity, unsigned),
    );
}

/// What the answer to a registration request is made of: the evaluation of the element in
/// it under the key of this session's identifier, and the server's public key.
pub proof fn law_registration_start_result(
    before: SessionView,
    request: RegistrationRequestView,
    after: SessionView,
    result: Result<RegistrationResponse, OpaqueError>,
)
    requires
        before.phase is Idle,
        registration_start_step(before, request, after, result),
    ensures
        result is Ok,
        result->Ok_0.evaluated_element@ == model::evaluated_element(
            before.server,
            before.credential_identifier,
            request.blinded_element,
        ),
        result->Ok_0.server_public_key@ == before.server.static_pk,
        after.phase is RegistrationAwaitingRecord,
{
    assert(result->Ok_0@.evaluated_element == result->Ok_0.evaluated_element@);
    assert(result->Ok_0@.server_public_key == result->Ok_0.server_public_key@);
}

/// What a client has after the first step of a login: the scalar of the drawn bytes, its
/// multiple of the password's element, the drawn nonce, and the key pair of the drawn
/// seed.
pub proof fn law_login_started_result(
    password: Seq<u8>,
    random: Seq<u8>,
    client_nonce: Seq<u8>,
    keyshare_seed: Seq<u8>,
    state: ClientLoginView,
)
    requires
        login_started(password, random, client_nonce, keyshare_seed, state),
    ensures
        state.blind == model::blind_scalar(random),
        state.client_ephemeral_sk == model::seeded_private_key(keyshare_seed),
        state.ke1.blinded_element == model::registration_request(
            password,
            state.blind,
        ).blinded_element,
        state.ke1.client_nonce == client_nonce,
        state.ke1.client_ephemeral_pk == ristretto_mul(
            ristretto_basepoint(),
            state.client_ephemeral_sk,
        ),
{
}

/// What the last step of a client's login does, for every KE2: a tag in the envelope that
/// is not the MAC of the nonce, the server's key and the identities, under the key that
/// comes from the password, is answered with [`OpaqueError::EnvelopeRecoveryError`]; then
/// a server MAC that is not the MAC of the transcript, under the key that comes from all
/// three exchanges, with [`OpaqueError::ServerAuthenticationError`]; and otherwise the
/// client has its own MAC, the session key and the export key.
pub proof fn law_login_finish_result(
    state: ClientLoginView,
    ke2: Ke2View,
    server_identity: Seq<u8>,
    client_identity: Seq<u8>,
    finished: Result<(Ke3, SessionKey, [u8; NH]), OpaqueError>,
)
    requires
        login_result(
            finished,
            model::client_login_outcome(state, ke2, server_identity, client_identity),
        ),
    ensures
        ({
            let output = sha512(
                ristretto_mul(ke2.evaluated_element, scalar_inverse(state.blind)),
            );
            let rand_pwd = hmac_sha512(Seq::empty(), output + output);
            let auth_key = tag_start(
                rand_pwd,
                ke2.envelope_nonce + label("AuthKey") + seq![1u8],
                64,
            );
            let opens = ke2.envelope_auth_tag == hmac_sha512(
                auth_key,
                model::envelope_message(
                    ke2.envelope_nonce,
                    ke2.server_public_key,
                    server_identity,
                    client_identity,
                ),
            );
            let static_sk = model::client_private_key(rand_pwd, ke2.envelope_nonce);
            let material = ristretto_mul(ke2.server_ephemeral_pk, state.client_ephemeral_sk)
                + ristretto_mul(ke2.server_public_key, state.client_ephemeral_sk) + ristretto_mul(
                ke2.server_ephemeral_pk,
                static_sk,
            );
            let transcript = model::preamble(client_identity, state.ke1, server_identity, ke2);
            let authentic = ke2.server_mac == hmac_sha512(
                mac_key_tag(material, transcript, label("ServerMAC")),
                sha512(transcript),
            );
            &&& finished is Ok <==> opens && authentic
            &&& !opens ==> finished->Err_0 is EnvelopeRecoveryError
            &&& opens && !authentic ==> finished->Err_0 is ServerAuthenticationError
            &&& opens && authentic ==> {
                &&& finished->Ok_0.0.client_mac@ == hmac_sha512(
                    mac_key_tag(material, transcript, label("ClientMAC")),
                    sha512(transcript + ke2.server_mac),
                )
                &&& finished->Ok_0.1.0@ == session_tag(material, transcript)
                &&& finished->Ok_0.2@ == tag_start(
                    rand_pwd,
                    ke2.envelope_nonce + label("ExportKey") + seq![1u8],
                    64,
                )
            }
        }),
{
    let output = sha512(ristretto_mul(ke2.evaluated_element, scalar_inverse(state.blind)));
    let rand_pwd = hmac_sha512(Seq::empty(), output + output);
    let static_sk = model::client_private_key(rand_pwd, ke2.envelope_nonce);
    let material = ristretto_mul(ke2.server_ephemeral_pk, state.client_ephemeral_sk)
        + ristretto_mul(ke2.server_public_key, state.client_ephemeral_sk) + ristretto_mul(
        ke2.server_ephemeral_pk,
        static_sk,
    );
    let transcript = model::preamble(client_identity, state.ke1, server_identity, ke2);
    lemma_handshake_tags(material, transcript);
    law_expand_starts_with_one_tag(rand_pwd, ke2.envelope_nonce + label("AuthKey"), 64);
    law_expand_starts_with_one_tag(rand_pwd, ke2.envelope_nonce + label("ExportKey"), 64);
}

/// A login with any other password than at registration is refused with
/// [`OpaqueError::EnvelopeRecoveryError`], but for a collision: of the two passwords'
/// digests, of the map from digests to elements, or in the derivation of the envelope tag.
/// The evaluation key must be invertible, which all but zero are.
pub proof fn law_other_password_is_refused(
    server: ServerView,
    credential_identifier: Seq<u8>,
    server_identity: Seq<u8>,
    client_identity: Seq<u8>,
    password: Seq<u8>,
    registration_blind: nat,
    envelope_nonce: Seq<u8>,
    other_password: Seq<u8>,
    login_blind: nat,
    client_nonce: Seq<u8>,
    client_seed: Seq<u8>,
    server_seed: Seq<u8>,
    server_nonce: Seq<u8>,
)
    requires
        password != other_password,
        is_group_element(model::password_element(password)),
        is_group_element(model::password_element(other_password)),
        registration_blind < group_order(),
        is_invertible(registration_blind),
        login_blind < group_order(),
        is_invertible(login_blind),
        is_invertible(model::oprf_key(server.oprf_seed, credential_identifier)),
    ensures
        ({
            let record = model::registration_record(
                registration_blind,
                model::registration_response(
                    server,
                    credential_identifier,
                    model::registration_request(password, registration_blind),
                ),
                envelope_nonce,
                server_identity,
                client_identity,
            );
            let state = model::client_login_state(
                other_password,
                login_blind,
                client_nonce,
                client_seed,
            );
            let login = model::login_response(
                server,
                credential_identifier,
                state.ke1,
                record,
                client_identity,
                server_seed,
                server_nonce,
            );
            let key = model::oprf_key(server.oprf_seed, credential_identifier);
            let message = model::envelope_message(
                envelope_nonce,
                server.static_pk,
                server_identity,
                client_identity,
            );
            ||| model::client_login_outcome(state, login.ke2, server_identity, client_identity)
                == Err::<LoginOutcome, OpaqueError>(OpaqueError::EnvelopeRecoveryError)
            ||| digest_collision(password, other_password)
            ||| uniform_collision(sha512(password), sha512(other_password))
            ||| crate::laws::envelope_collision(
                ristretto_mul(ristretto_from_uniform(sha512(password)), key),
                message,
                ristretto_mul(ristretto_from_uniform(sha512(other_password)), key),
                message,
                envelope_nonce,
            )
        }),
{
    if model::password_element(password) == model::password_element(other_password) {
        law_passwords_have_different_elements(password, other_password);
    } else {
        crate::laws::law_other_credentials_need_a_collision(
            server,
            credential_identifier,
            server_identity,
            client_identity,
            password,
            registration_blind,
            envelope_nonce,
            other_password,
            server_identity,
            client_identity,
            login_blind,
            client_nonce,
            client_seed,
            server_seed,
            server_nonce,
        );
    }
}

// ---------------------------------------------------------------------------
// The session
// ---------------------------------------------------------------------------

/// A session takes a record exactly when it has answered a registration request, and hands
/// it back as it is; otherwise it says that the call came out of order.
pub proof fn law_record_is_returned_as_it_is(
    before: SessionView,
    record: RegistrationRecord,
    after: SessionView,
    result: Result<RegistrationRecord, OpaqueError>,
)
    requires
        registration_finish_step(before, record, after, result),
    ensures
        result is Ok <==> before.phase is RegistrationAwaitingRecord,
        result matches Ok(stored) ==> stored == record,
        result matches Err(e) ==> e is InvalidState && e->InvalidState_0@
            == "unexpected session state"@,
{
}

/// A session answers KE3 exactly when it has answered KE1: with the key that it derived
/// then, if the MAC is the one that it waits for, and with
/// [`OpaqueError::ClientAuthenticationError`] for every other MAC.
pub proof fn law_every_mac_is_answered(
    before: SessionView,
    client_mac: Seq<u8>,
    after: SessionView,
    result: Result<SessionKey, OpaqueError>,
)
    requires
        login_finish_step(before, client_mac, after, result),
    ensures
        before.phase matches SessionPhase::LoginAwaitingKe3 { expected_client_mac, session_key }
            ==> {
            &&& result is Ok <==> client_mac == expected_client_mac
            &&& result matches Ok(key) ==> key.0@ == session_key && after.phase is Completed
            &&& result matches Err(e) ==> e is ClientAuthenticationError && after == before
        },
        !(before.phase is LoginAwaitingKe3) ==> {
            &&& result matches Err(e) && e is InvalidState && e->InvalidState_0@
                == "expected LoginAwaitingKe3"@
            &&& after == before
        },
{
}

/// The first step of a registration or a login succeeds exactly on an idle session;
/// otherwise the session says that the call came out of order and stays as it is.
pub proof fn law_first_steps_need_an_idle_session(
    before: SessionView,
    request: RegistrationRequestView,
    registered: SessionView,
    response: Result<RegistrationResponse, OpaqueError>,
    ke1: Ke1View,
    record: RegistrationRecordView,
    client_identity: Seq<u8>,
    keyshare_seed: Seq<u8>,
    server_nonce: Seq<u8>,
    logged_in: SessionView,
    ke2: Result<Ke2, OpaqueError>,
)
    requires
        registration_start_step(before, request, registered, response),
        login_start_step(
            before,
            ke1,
            record,
            client_identity,
            keyshare_seed,
            server_nonce,
            logged_in,
            ke2,
        ),
    ensures
        response is Ok <==> before.phase is Idle,
        ke2 is Ok <==> before.phase is Idle,
        response matches Err(e) ==> e is InvalidState && e->InvalidState_0@
            == "unexpected session state"@ && registered == before,
        ke2 matches Err(e) ==> e is InvalidState && e->InvalidState_0@
            == "unexpected session state"@ && logged_in == before,
{
}

/// The message of a call out of order is a fixed beginning and the condition that was
/// violated, so that different conditions have different messages.
pub proof fn law_error_messages_tell_conditions_apart(
    condition1: &'static str,
    condition2: &'static str,
)
    ensures
        ({
            let message1 = OpaqueError::InvalidState(condition1).message();
            let message2 = OpaqueError::InvalidState(condition2).message();
            let beginning = "invalid state: "@;
            &&& message1.len() == beginning.len() + condition1@.len()
            &&& message1.subrange(0, beginning.len() as int) == beginning
            &&& message1.subrange(beginning.len() as int, message1.len() as int) == condition1@
            &&& message1 == message2 ==> condition1@ == condition2@
        }),
{
    let message1 = OpaqueError::InvalidState(condition1).message();
    let message2 = OpaqueError::InvalidState(condition2).message();
    let beginning = "invalid state: "@;
    assert(message1.subrange(0, beginning.len() as int) =~= beginning);
    assert(message1.subrange(beginning.len() as int, message1.len() as int) =~= condition1@);
    assert(message2.subrange(beginning.len() as int, message2.len() as int) =~= condition2@);
}

// ---------------------------------------------------------------------------
// Messages and tokens
// ---------------------------------------------------------------------------

/// What the first step of a login needs is that the three elements it reads are well
/// encoded, and nothing else.
pub proof fn law_login_start_needs_three_elements(ke1: Ke1View, record: RegistrationRecordView)
    ensures
        login_elements_decode(ke1, record) <==> ristretto_decodes(ke1.blinded_element)
            && ristretto_decodes(ke1.client_ephemeral_pk) && ristretto_decodes(
            record.client_public_key,
        ),
{
}

/// The views of the messages show every field as it is.
pub proof fn law_views_show_the_fields(
    request: RegistrationRequest,
    response: RegistrationResponse,
    record: RegistrationRecord,
    ke1: Ke1,
    ke2: Ke2,
    state: ClientLoginState,
)
    ensures
        request@.blinded_element == request.blinded_element@,
        response@.evaluated_element == response.evaluated_element@,
        response@.server_public_key == response.server_public_key@,
        record@.client_public_key == record.client_public_key@,
        record@.masking_key == record.masking_key@,
        record@.envelope_nonce == record.envelope_nonce@,
        record@.envelope_auth_tag == record.envelope_auth_tag@,
        ke1@.blinded_element == ke1.blinded_element@,
        ke1@.client_nonce == ke1.client_nonce@,
        ke1@.client_ephemeral_pk == ke1.client_ephemeral_pk@,
        ke2@.evaluated_element == ke2.evaluated_element@,
        ke2@.envelope_nonce == ke2.envelope_nonce@,
        ke2@.envelope_auth_tag == ke2.envelope_auth_tag@,
        ke2@.server_public_key == ke2.server_public_key@,
        ke2@.server_nonce == ke2.server_nonce@,
        ke2@.server_ephemeral_pk == ke2.server_ephemeral_pk@,
        ke2@.server_mac == ke2.server_mac@,
        state@.blind == state.blind@,
        state@.client_ephemeral_sk == state.client_ephemeral_sk@,
        state@.ke1 == state.ke1@,
{
}

/// The claims of a token stand, in base64, between its last two dots.
pub proof fn law_claims_stand_between_the_last_two_dots(token: Seq<char>, claims: Seq<u8>)
    requires
        has_claims(token, claims),
    ensures
        exists|i: int, j: int|
            #![trigger token[i], token[j]]
            0 <= i < j < token.len() && token[i] == '.' && token[j] == '.' && token.subrange(
                i + 1,
                j,
            ) == b64url(claims) && !b64url(claims).contains('.') && !token.subrange(
                j + 1,
                token.len() as int,
            ).contains('.'),
{
    let (head, signature) = choose|head: Seq<char>, signature: Seq<char>|
        token == #[trigger] jwt_token(jwt_message(head, claims), signature)
            && !signature.contains('.');
    lemma_b64url_has_no_dot(claims);
    let i = head.len() as int;
    let j = i + 1 + b64url(claims).len();
    assert(token[i] == '.' && token[j] == '.');
    assert(token.subrange(i + 1, j) =~= b64url(claims));
    assert(token.subrange(j + 1, token.len() as int) =~= signature);
}

/// The claims of a minted token are the bytes of the JSON text that was given: reading
/// them as text gives it back.
pub proof fn law_claims_are_the_bytes_of_the_text(claims: Seq<char>)
    ensures
        vstd::utf8::valid_utf8(claims_bytes(claims)),
        vstd::utf8::decode_utf8(claims_bytes(claims)) == json_value(claims)->0,
{
    vstd::utf8::encode_utf8_valid_utf8(json_value(claims)->0);
    vstd::utf8::encode_utf8_decode_utf8(json_value(claims)->0);
}

/// A token verifies exactly when the token library accepts it for HS256 and the audience
/// `access`, and what comes back then is the claims in the token.
pub proof fn law_verification_asks_for_hs256_and_access(
    token: Seq<char>,
    key: Seq<u8>,
    now: u64,
    verified: Result<Vec<u8>, JwtError>,
)
    requires
        verified_at(token, key, now, verified),
    ensures
        verified is Ok <==> jwt_accepts(token, key, "HS256"@, "access"@, now),
        verified matches Ok(claims) ==> has_claims(token, claims@),
        verified matches Err(e) ==> e is Verification,
{
}

} // verus!
