//! Exact values of every step, for fixed inputs and fixed random bytes.
use opaque_framework::bytes;
use opaque_framework::client;
use opaque_framework::group::{RistrettoPoint, Scalar};
use opaque_framework::server::Server;
use opaque_framework::utils;
use opaque_framework::wire_structs::{Ke1, Ke2};
use opaque_framework::{NH, NM, NN, NSEED};

fn hex(bytes: &[u8]) -> String {
    bytes.iter().map(|b| format!("{:02x}", b)).collect()
}

fn counting() -> [u8; 64] {
    std::array::from_fn(|i| i as u8)
}

fn server() -> Server {
    Server::new(b"example.com", counting(), std::array::from_fn(|i| 64 + i as u8))
}

#[test]
fn lengths_are_those_of_the_suite() {
    assert_eq!((NN, NH, NM, NSEED), (32, 64, 64, 32));
}

#[test]
fn hash_is_sha512() {
    assert_eq!(
        hex(&utils::hash(b"abc")),
        "ddaf35a193617abacc417349ae20413112e6fa4e89a97ea20a9eeee64b55d39a\
         2192992a274fc1a836ba3c23a3feebbd454d4423643ce80e2a9ac94fa54ca49f"
    );
}

#[test]
fn mac_is_hmac_sha512() {
    assert_eq!(
        hex(&utils::mac_fn(b"key", b"The quick brown fox jumps over the lazy dog")),
        "b42af09057bac1e2d41708e48a902e09b5ff7f12ab428a4fe86653c73dd248fb\
         82f948a549f7b791a5b41915ee4d1ec3935357e4e2317250d0372afa2ebeeb3a"
    );
}

#[test]
fn mac_takes_keys_of_any_length() {
    let long = [1u8; 300];
    assert_eq!(utils::mac_fn(&long, b"m"), utils::mac_fn(&utils::hash(&long), b"m"));
    assert_eq!(utils::mac_fn(b"", b"m"), utils::mac_fn(&[0u8; 128], b"m"));
}

#[test]
fn extract_is_the_mac_of_the_key_material() {
    let prk = utils::hkdf_extract(b"salt", b"input key material");
    assert_eq!(
        hex(&prk),
        "eb21b2c6b482ecc6346d064dc40ee40f96e8ef106d511617ab01ef7415443882\
         3d40e47ab56d99cedfc803b14d398541fdf15a103fbb72707cc449a1c88b1cdb"
    );
    assert_eq!(prk, utils::mac_fn(b"salt", b"input key material"));
    assert_eq!(utils::hkdf_extract(b"", b"ikm"), utils::mac_fn(b"", b"ikm"));
}

#[test]
fn extract_does_not_see_zeros_after_the_salt() {
    assert_eq!(utils::hkdf_extract(b"", b"ikm"), utils::hkdf_extract(&[0u8; 64], b"ikm"));
    assert_eq!(utils::hkdf_extract(b"s", b"ikm"), utils::hkdf_extract(b"s\0\0", b"ikm"));
    assert_ne!(utils::hkdf_extract(b"", b"ikm"), utils::hkdf_extract(&[0u8; 129], b"ikm"));
}

#[test]
fn shorter_output_is_a_prefix() {
    let long = utils::hkdf_expand(&counting(), b"info", 200);
    for len in [0, 1, 63, 64, 65, 128, 199] {
        assert_eq!(utils::hkdf_expand(&counting(), b"info", len), long[..len].to_vec());
    }
}

#[test]
fn expand_gives_as_many_bytes_as_asked_for() {
    let okm = utils::hkdf_expand(&counting(), b"info", 100);
    assert_eq!(
        hex(&okm),
        "3cb647d2d2c424e185201a85c73a729ca9496b114c8f3752d6819f60b1bd5da0\
         3e3834c1728ebce89f8f9d40c6838a86aed857389ea8cb24aedbb87b66a27fd8\
         0dcebd3b0738fe78268087c46ea29193641823aa89b268495cc9dbe521981d91\
         260dea86"
    );
    assert!(utils::hkdf_expand(&counting(), b"info", 0).is_empty());
    assert_eq!(utils::hkdf_expand(&counting(), b"info", 255 * 64).len(), 255 * 64);
}

#[test]
fn derived_secret_joins_label_and_context() {
    let secret = utils::derive_secret(&counting(), b"ServerMAC", b"ctx");
    assert_eq!(
        hex(&secret),
        "4e7430a65a6d3444c2fd255aff34594c278a4698cd889d53c1f8944b347c432f\
         6d6d337b4b83f3b17a68b9662fe6bde6266e07d14ae0ff3e7aaa9c6caf8b8076"
    );
}

#[test]
fn handshake_keys() {
    let (km2, km3, session_key) = utils::derive_keys(b"key material", b"transcript");
    assert_eq!(
        hex(&km2),
        "915db6154494b05f90394408b834b237c07ac1fd52899f3ff23198ea6e01ba44\
         568b9148460969d9c8f020b15f4583dd67893c042833ae9f690a7c32e5e3f8db"
    );
    assert_eq!(
        hex(&km3),
        "a3fd4b1b3b54966b62a391341ae4a6e24e9899121e17306d1b93aa64640dea87\
         d1179f08200204a16b7fee5b81f37dfc84ccaa20d3bfe58798dc97f0c3f84611"
    );
    assert_eq!(
        hex(&session_key),
        "40a244abedd55a123e37106d9954158c95059b544fc86dae4d541155b54258c2\
         05954859d2ac341c4ae7c884a6ab0bbe72de2617fbf71dffed366f1d0ec50bb4"
    );
}

#[test]
fn key_pair_of_a_seed() {
    let (sk, pk) = utils::derive_dh_keypair(b"seed");
    assert_eq!(
        hex(&sk.to_bytes()),
        "a405f4646f3e737245c3ee8b61726291d176ab33f8bd9625f2fab1e04fb3310f"
    );
    assert_eq!(
        hex(&pk.compress()),
        "e4d473d8ac5d68042ab160d0d909016e7a60446c04fd97d5c17a56c15cf90329"
    );
}

#[test]
fn shared_element_of_two_seeds() {
    let (sk1, pk1) = utils::derive_dh_keypair(b"seed");
    let (sk2, pk2) = utils::derive_dh_keypair(b"other");
    let shared = utils::dh(&sk1, &pk2);
    assert_eq!(hex(&shared), "100c81d4fd03aef30ef21f828ff3882b457866071e4f2205f3f994365a57a72a");
    assert_eq!(shared, utils::dh(&sk2, &pk1));
}

#[test]
fn wide_bytes_are_reduced() {
    let reduced = Scalar::from_bytes_mod_order_wide(&[255u8; 64]);
    assert_eq!(
        hex(&reduced.to_bytes()),
        "000f9c44e31106a447938568a71b0ed065bef517d273ecce3d9a307c1b419903"
    );
    let mut order = [0u8; 64];
    for (i, b) in [
        0xed, 0xd3, 0xf5, 0x5c, 0x1a, 0x63, 0x12, 0x58, 0xd6, 0x9c, 0xf7, 0xa2, 0xde, 0xf9, 0xde,
        0x14,
    ]
    .iter()
    .enumerate()
    {
        order[i] = *b;
    }
    order[31] = 0x10;
    assert_eq!(Scalar::from_bytes_mod_order_wide(&order).to_bytes(), [0u8; 32]);
}

#[test]
fn inverse_of_two_and_of_zero() {
    let mut two = [0u8; 64];
    two[0] = 2;
    assert_eq!(
        hex(&Scalar::from_bytes_mod_order_wide(&two).invert().to_bytes()),
        "f7e97a2e8d31092c6bce7b51ef7c6f0a00000000000000000000000000000008"
    );
    let zero = Scalar::from_bytes_mod_order_wide(&[0u8; 64]);
    assert_eq!(zero.invert().to_bytes(), [0u8; 32]);
}

#[test]
fn multiples_of_the_base_point() {
    let mut wide = [0u8; 64];
    assert_eq!(
        RistrettoPoint::mul_base(&Scalar::from_bytes_mod_order_wide(&wide)).compress(),
        [0u8; 32]
    );
    wide[0] = 1;
    let one = Scalar::from_bytes_mod_order_wide(&wide);
    assert_eq!(
        hex(&RistrettoPoint::mul_base(&one).compress()),
        "e2f2ae0a6abc4e71a884a961c500515f58e30b6aa582dd8db6a65945e08d2d76"
    );
    wide[0] = 2;
    let two = Scalar::from_bytes_mod_order_wide(&wide);
    let double = "6a493210f7499cd17fecb510ae0cea23a110e8d5b901f8acadd3095c73a3b919";
    assert_eq!(hex(&RistrettoPoint::mul_base(&two).compress()), double);
    assert_eq!(hex(&RistrettoPoint::mul_base(&one).mul(&two).compress()), double);
}

#[test]
fn uniform_bytes_map_to_an_element() {
    assert_eq!(
        hex(&RistrettoPoint::from_uniform_bytes(&counting()).compress()),
        "2e7c4964f91f5f2b074a9bc147ef973c08dbe29683746f979f11358065a2d155"
    );
}

#[test]
fn only_canonical_encodings_decode() {
    let mut wide = [0u8; 64];
    wide[0] = 1;
    let base = RistrettoPoint::mul_base(&Scalar::from_bytes_mod_order_wide(&wide)).compress();
    assert!(utils::is_valid_element(&base));
    assert_eq!(utils::decompress(&base).compress(), base);
    assert_eq!(utils::try_decompress(&base).unwrap().compress(), base);
    assert!(utils::is_valid_element(&[0u8; 32]));
    assert!(!utils::is_valid_element(&[255u8; 32]));
    assert!(utils::try_decompress(&[255u8; 32]).is_none());
    let mut negative = [0u8; 32];
    negative[0] = 1;
    assert!(utils::try_decompress(&negative).is_none());
}

#[test]
fn evaluation_key_of_an_identifier() {
    assert_eq!(
        hex(&utils::oprf_derive_key(&counting(), b"id").to_bytes()),
        "065e2c3f0d3ee0deb84d2a4746fd60e757ccdb7a9f33b3a49630f184e2d92506"
    );
}

#[test]
fn oprf_output_does_not_depend_on_the_blind() {
    let key = utils::oprf_derive_key(&counting(), b"id");
    let expected = "7910b5ac2eb79e8df1b7b0541176491427c19fbce9a934e2b14630a674e19332\
         13c13dffdf145f7d585efd24f91f120504fbf2f11f12374dc04e9d18569d9af3";
    for random in [[7u8; 64], [11u8; 64]] {
        let (blind, blinded) = utils::oprf_blind_with(b"password", &random);
        assert_eq!(hex(&utils::oprf_finalize(&blinded.mul(&key), &blind)), expected);
    }
    let (blind, blinded) = utils::oprf_blind(b"password");
    assert_eq!(hex(&utils::oprf_finalize(&blinded.mul(&key), &blind)), expected);
}

#[test]
fn stretching_changes_nothing() {
    assert_eq!(utils::stretch(b"abc"), b"abc".to_vec());
}

#[test]
fn randomized_password_of_an_output() {
    assert_eq!(
        hex(&utils::randomized_password(&counting())),
        "569d35aacec92ac37b37fa51adee36ee826b8ad10e197c6eac1743d3df29da3b\
         d6347e8ef7c398ef837d61cb6021ebf48a21d54505bfb281a004149aeacd14a8"
    );
}

#[test]
fn envelope_message_layout() {
    let msg = utils::envelope_mac_msg(&[9u8; 32], &[8u8; 32], b"srv", b"c");
    let mut expected = vec![9u8; 32];
    expected.extend_from_slice(&[8u8; 32]);
    expected.extend_from_slice(b"\x00\x03srv\x00\x01c");
    assert_eq!(msg, expected);
}

#[test]
fn length_prefix_keeps_the_low_sixteen_bits() {
    let mut buffer = vec![1u8];
    bytes::append_length_prefixed(&mut buffer, &vec![5u8; 0x1_0003]);
    assert_eq!(&buffer[..4], &[1, 0, 3, 5]);
    assert_eq!(buffer.len(), 1 + 2 + 0x1_0003);
    let mut other = Vec::new();
    bytes::append_length_prefixed(&mut other, &vec![5u8; 0x0102]);
    assert_eq!(&other[..3], &[1, 2, 5]);
}

fn messages() -> (Ke1, Ke2) {
    let ke1 = Ke1 {
        blinded_element: [1; 32],
        client_nonce: [2; 32],
        client_ephemeral_pk: [3; 32],
    };
    let ke2 = Ke2 {
        evaluated_element: [4; 32],
        envelope_nonce: [5; 32],
        envelope_auth_tag: [6; 64],
        server_public_key: [7; 32],
        server_nonce: [8; 32],
        server_ephemeral_pk: [9; 32],
        server_mac: [10; 64],
    };
    (ke1, ke2)
}

#[test]
fn message_encodings() {
    let (ke1, ke2) = messages();
    assert_eq!(utils::ke1_bytes(&ke1), [[1u8; 32], [2; 32], [3; 32]].concat());
    assert_eq!(
        utils::credential_response_bytes(&ke2),
        [[4u8; 32], [5; 32], [6; 32], [6; 32], [7; 32]].concat()
    );
}

#[test]
fn preamble_layout() {
    let (ke1, ke2) = messages();
    let mut expected = b"OPAQUEv1-\x00\x00\x00\x06client".to_vec();
    expected.extend_from_slice(&utils::ke1_bytes(&ke1));
    expected.extend_from_slice(b"\x00\x06server");
    expected.extend_from_slice(&utils::credential_response_bytes(&ke2));
    expected.extend_from_slice(&[8u8; 32]);
    expected.extend_from_slice(&[9u8; 32]);
    assert_eq!(utils::build_preamble(b"client", &ke1, b"server", &ke2), expected);
}

#[test]
fn registration_values() {
    let server = server();
    assert_eq!(
        hex(&server.public_key_bytes()),
        "80f6b1ff345ef1e118d637131ebabdb81ec1c8daf93d7cbce42505fb0f948e4f"
    );
    let (blind, request) =
        client::registration_start_with(b"correct horse battery staple", &[7u8; 64]);
    assert_eq!(
        hex(&blind.to_bytes()),
        "4f88a4e6ee89448a694f7179f940d53667327ad213e971c918e18c27679f6e05"
    );
    assert_eq!(
        hex(&request.blinded_element),
        "dafcc10597ba44232e5ff7da8cc08fc2256a0dd288b56004e2a634e8154f3a5a"
    );
    let mut session = server.initiate_session(b"user@example.com");
    let response = session.registration_start(&request).unwrap();
    assert_eq!(
        hex(&response.evaluated_element),
        "0c78a299747eea762da5050ecf7707fd6f9c718c3636a78ab2e09b694222f13b"
    );
    assert_eq!(response.server_public_key, server.public_key_bytes());
    let (record, export_key) = client::registration_finish_with(
        &blind,
        &response,
        b"example.com",
        b"user@example.com",
        [9u8; 32],
    );
    assert_eq!(
        hex(&record.client_public_key),
        "dae51bd6418a35c91de78e8fb87db29be9ef8be81f57ebca138dd03d7d3b0371"
    );
    assert_eq!(
        hex(&record.masking_key),
        "42300730b6710b400c85cae2fe84896126335e2e1e39bb5747c4b4215adbfe84\
         de0c47d198db2a09be9ab99b0ab87cfdaefdc763c02ee1fabcefbfaeab6afc30"
    );
    assert_eq!(record.envelope_nonce, [9u8; 32]);
    assert_eq!(
        hex(&record.envelope_auth_tag),
        "f6d3455c53371e8eb8ac7284fa0415a14a63e7e06278e3683bd107363a0c6535\
         84c423e1ca9e17b100ebd25f3b6d5f456b091e1bceb297d7b353a4c397fb689d"
    );
    assert_eq!(
        hex(&export_key),
        "3b31c560d3ebe74e280e1e6f6f7e9a314e7d8f629b9a59068c3efd775f257fd7\
         a39590fac3ccb2498cf318496f7579d4e7e7f3d672acb28a5ae0bb8cf717623d"
    );
}

#[test]
fn login_values() {
    let server = server();
    let password = b"correct horse battery staple";
    let (blind, request) = client::registration_start_with(password, &[7u8; 64]);
    let mut registration = server.initiate_session(b"user@example.com");
    let response = registration.registration_start(&request).unwrap();
    let (record, _) = client::registration_finish_with(
        &blind,
        &response,
        b"example.com",
        b"user@example.com",
        [9u8; 32],
    );

    let state = client::login_start_with(password, &[11u8; 64], [13u8; 32], &[15u8; 32]);
    assert_eq!(
        hex(&state.ke1.blinded_element),
        "2e3e9445f8f3a032c126161c74124a667700d21cbf103faed6ac4c431ce65f56"
    );
    assert_eq!(state.ke1.client_nonce, [13u8; 32]);
    assert_eq!(
        hex(&state.ke1.client_ephemeral_pk),
        "e89bb04852646615216d399cfcf11427481932733b271203b7548047f7c12359"
    );

    let mut login = server.initiate_session(b"user@example.com");
    let ke2 = login
        .login_start_with(&state.ke1, &record, b"user@example.com", &[17u8; 32], [19u8; 32])
        .unwrap();
    assert_eq!(
        hex(&ke2.evaluated_element),
        "badef3ae964b568fd8a95e7092352fa8011dd3abc8cfd6a11added8215fad413"
    );
    assert_eq!(ke2.envelope_nonce, record.envelope_nonce);
    assert_eq!(ke2.envelope_auth_tag, record.envelope_auth_tag);
    assert_eq!(ke2.server_public_key, server.public_key_bytes());
    assert_eq!(ke2.server_nonce, [19u8; 32]);
    assert_eq!(
        hex(&ke2.server_ephemeral_pk),
        "b2c7b1dfbe2ecd7b20fc512c1fc94e6f9cf7d0f4510bf98cc0a2e6988d559841"
    );
    assert_eq!(
        hex(&ke2.server_mac),
        "71111b78c947205fc53779de6e5916ff2c50c5d29150fc9190eeef3b96e2d644\
         4f28b83544dae163b5b6bc667a697ab53a9ea14fd8de95448616c9887c76d5be"
    );

    let (ke3, client_key, export_key) =
        client::login_finish(state, &ke2, b"example.com", b"user@example.com").unwrap();
    assert_eq!(
        hex(&ke3.client_mac),
        "40dfe90ab9ad80dfb7ae552da76beb91c7a23a05ff7ee99449dcf3709b1d3b2a\
         8b39adf1f85460b91f6ed36c4f086c7a75cbe40513235d5234b4500441096286"
    );
    let session_key = "79c50cb947f7dce4b425260901b9b4f7b3f79a13caaafbf9bbfd8f1308af7daa\
         fc3bfd6e800a2576c9693ad715f2a2163b869f88c73cf2a45fb2f59cc981a77b";
    assert_eq!(hex(&client_key.0), session_key);
    assert_eq!(
        hex(&export_key),
        "3b31c560d3ebe74e280e1e6f6f7e9a314e7d8f629b9a59068c3efd775f257fd7\
         a39590fac3ccb2498cf318496f7579d4e7e7f3d672acb28a5ae0bb8cf717623d"
    );
    let server_key = login.login_finish(&ke3).unwrap();
    assert_eq!(hex(&server_key.0), session_key);
}
