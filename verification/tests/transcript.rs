//! What the envelope tag and the transcript depend on.
use opaque_framework::client;
use opaque_framework::server::Server;
use opaque_framework::utils::{build_preamble, credential_response_bytes, envelope_mac_msg};
use opaque_framework::wire_structs::{Ke1, Ke2};

fn ke1() -> Ke1 {
    Ke1 { blinded_element: [1; 32], client_nonce: [2; 32], client_ephemeral_pk: [3; 32] }
}

fn ke2() -> Ke2 {
    Ke2 {
        evaluated_element: [4; 32],
        envelope_nonce: [5; 32],
        envelope_auth_tag: [6; 64],
        server_public_key: [7; 32],
        server_nonce: [8; 32],
        server_ephemeral_pk: [9; 32],
        server_mac: [10; 64],
    }
}

#[test]
fn envelope_message_keeps_its_parts_apart() {
    let first = envelope_mac_msg(&[0; 32], &[0; 32], b"ab", b"c");
    let second = envelope_mac_msg(&[0; 32], &[0; 32], b"a", b"bc");
    assert_eq!(first.len(), second.len());
    assert_ne!(first, second);
}

#[test]
fn identities_of_two_to_the_sixteen_bytes_can_run_together() {
    let long = vec![0u8; 0x1_0000];
    let first = envelope_mac_msg(&[0; 32], &[0; 32], b"", &long);
    let second = envelope_mac_msg(&[0; 32], &[0; 32], &long, b"");
    assert_eq!(first, second);
}

#[test]
fn preamble_leaves_out_the_server_mac() {
    let plain = build_preamble(b"c", &ke1(), b"s", &ke2());
    let changed = Ke2 { server_mac: [0; 64], ..ke2() };
    assert_eq!(build_preamble(b"c", &ke1(), b"s", &changed), plain);
}

#[test]
fn credential_response_holds_the_server_key() {
    let changed = Ke2 { server_public_key: [0; 32], ..ke2() };
    assert_ne!(credential_response_bytes(&changed), credential_response_bytes(&ke2()));
}

#[test]
fn preamble_depends_on_everything_else() {
    let plain = build_preamble(b"c", &ke1(), b"s", &ke2());
    assert_ne!(build_preamble(b"d", &ke1(), b"s", &ke2()), plain);
    assert_ne!(build_preamble(b"c", &ke1(), b"t", &ke2()), plain);
    let changed = Ke1 { client_nonce: [0; 32], ..ke1() };
    assert_ne!(build_preamble(b"c", &changed, b"s", &ke2()), plain);
    for changed in [
        Ke2 { evaluated_element: [0; 32], ..ke2() },
        Ke2 { envelope_nonce: [0; 32], ..ke2() },
        Ke2 { envelope_auth_tag: [0; 64], ..ke2() },
        Ke2 { server_public_key: [0; 32], ..ke2() },
        Ke2 { server_nonce: [0; 32], ..ke2() },
        Ke2 { server_ephemeral_pk: [0; 32], ..ke2() },
    ] {
        assert_ne!(build_preamble(b"c", &ke1(), b"s", &changed), plain);
    }
}

#[test]
fn record_does_not_depend_on_the_blind() {
    let server = Server::new(b"s".to_vec(), [1; 64], [2; 64]);
    let mut records = Vec::new();
    for random in [[7u8; 64], [11u8; 64]] {
        let (blind, request) = client::registration_start_with(b"password", &random);
        let mut session = server.initiate_session(b"id".to_vec());
        let response = session.registration_start(&request).unwrap();
        records.push(client::registration_finish_with(&blind, &response, b"s", b"c", [3; 32]));
    }
    assert_eq!(records[0].0.client_public_key, records[1].0.client_public_key);
    assert_eq!(records[0].0.masking_key, records[1].0.masking_key);
    assert_eq!(records[0].0.envelope_auth_tag, records[1].0.envelope_auth_tag);
    assert_eq!(records[0].1, records[1].1);
}

#[test]
fn registration_keys_come_from_the_password() {
    let server = Server::new(b"s".to_vec(), [1; 64], [2; 64]);
    let register = |random: [u8; 64], nonce: [u8; 32], sid: &[u8], cid: &[u8]| {
        let (blind, request) = client::registration_start_with(b"password", &random);
        let mut session = server.initiate_session(b"id".to_vec());
        let response = session.registration_start(&request).unwrap();
        client::registration_finish_with(&blind, &response, sid, cid, nonce)
    };
    let (first, export1) = register([7; 64], [3; 32], b"s", b"c");
    let (second, export2) = register([11; 64], [3; 32], b"t", b"d");
    let (third, export3) = register([13; 64], [4; 32], b"s", b"c");
    assert_eq!(first.masking_key, second.masking_key);
    assert_eq!(first.masking_key, third.masking_key);
    assert_eq!(export1, export2);
    assert_eq!(first.client_public_key, second.client_public_key);
    assert_ne!(first.envelope_auth_tag, second.envelope_auth_tag);
    assert_ne!(export1, export3);
    assert_ne!(first.client_public_key, third.client_public_key);
}
