//! Registrations, logins and what goes wrong in them.
use opaque_framework::client::{self, ClientLoginState};
use opaque_framework::server::{OpaqueSession, Server, SessionKey};
use opaque_framework::wire_structs::{
    Ke2, Ke3, RegistrationRecord, RegistrationRequest, RegistrationResponse,
};
use opaque_framework::{OpaqueError, NH};

const PASSWORD: &[u8] = b"correct horse battery staple";
const IDENTITY: &[u8] = b"user@example.com";
const SERVER: &[u8] = b"example.com";

fn server() -> Server {
    Server::new(SERVER.to_vec(), [3u8; NH], [5u8; NH])
}

fn register(server: &Server, password: &[u8]) -> (RegistrationRecord, [u8; NH]) {
    let (blind, request) = client::registration_start(password);
    let mut session = server.initiate_session(IDENTITY.to_vec());
    let response = session.registration_start(&request).unwrap();
    let (record, export_key) = client::registration_finish(&blind, &response, SERVER, IDENTITY);
    (session.registration_finish(record).unwrap(), export_key)
}

fn answer(
    server: &Server,
    record: &RegistrationRecord,
    password: &[u8],
) -> (ClientLoginState, OpaqueSession, Ke2) {
    let state = client::login_start(password);
    let mut session = server.initiate_session(IDENTITY.to_vec());
    let ke2 = session.login_start(&state.ke1, record, IDENTITY).unwrap();
    (state, session, ke2)
}

fn is_out_of_order<T>(result: Result<T, OpaqueError>, message: &str) -> bool {
    match result {
        Err(OpaqueError::InvalidState(m)) => m == message,
        _ => false,
    }
}

#[test]
fn login_after_registration_gives_one_session_key() {
    let server = server();
    let (record, registered_export_key) = register(&server, PASSWORD);
    let (state, mut session, ke2) = answer(&server, &record, PASSWORD);
    let (ke3, client_key, export_key) =
        client::login_finish(state, &ke2, server.identity(), IDENTITY).unwrap();
    let server_key = session.login_finish(&ke3).unwrap();
    assert_eq!(client_key.0, server_key.0);
    assert_eq!(export_key, registered_export_key);
}

#[test]
fn every_login_has_its_own_session_key() {
    let server = server();
    let (record, _) = register(&server, PASSWORD);
    let mut keys: Vec<SessionKey> = Vec::new();
    let mut export_keys: Vec<[u8; NH]> = Vec::new();
    for _ in 0..2 {
        let (state, mut session, ke2) = answer(&server, &record, PASSWORD);
        let (ke3, _, export_key) =
            client::login_finish(state, &ke2, SERVER, IDENTITY).unwrap();
        keys.push(session.login_finish(&ke3).unwrap());
        export_keys.push(export_key);
    }
    assert_ne!(keys[0].0, keys[1].0);
    assert_eq!(export_keys[0], export_keys[1]);
}

#[test]
fn wrong_password_does_not_open_the_envelope() {
    let server = server();
    let (record, _) = register(&server, PASSWORD);
    let (state, _, ke2) = answer(&server, &record, b"wrong");
    let result = client::login_finish(state, &ke2, SERVER, IDENTITY);
    assert!(matches!(result, Err(OpaqueError::EnvelopeRecoveryError)));
}

#[test]
fn other_identities_do_not_open_the_envelope() {
    let server = server();
    let (record, _) = register(&server, PASSWORD);
    let (state, _, ke2) = answer(&server, &record, PASSWORD);
    let result = client::login_finish(state, &ke2, b"example.org", IDENTITY);
    assert!(matches!(result, Err(OpaqueError::EnvelopeRecoveryError)));
    let (state, _, ke2) = answer(&server, &record, PASSWORD);
    let result = client::login_finish(state, &ke2, SERVER, b"someone@example.com");
    assert!(matches!(result, Err(OpaqueError::EnvelopeRecoveryError)));
}

#[test]
fn other_seeds_invalidate_the_record() {
    let (record, _) = register(&server(), PASSWORD);
    let other = Server::new(SERVER.to_vec(), [4u8; NH], [5u8; NH]);
    let (state, _, ke2) = answer(&other, &record, PASSWORD);
    let result = client::login_finish(state, &ke2, SERVER, IDENTITY);
    assert!(matches!(result, Err(OpaqueError::EnvelopeRecoveryError)));
}

#[test]
fn another_key_seed_invalidates_the_record() {
    let (record, _) = register(&server(), PASSWORD);
    let other = Server::new(SERVER.to_vec(), [3u8; NH], [6u8; NH]);
    let (state, _, ke2) = answer(&other, &record, PASSWORD);
    let result = client::login_finish(state, &ke2, SERVER, IDENTITY);
    assert!(matches!(result, Err(OpaqueError::EnvelopeRecoveryError)));
}

#[test]
fn server_that_answers_for_others_is_noticed() {
    let server = server();
    let (record, _) = register(&server, PASSWORD);
    let renamed = Server::new(b"example.org".to_vec(), [3u8; NH], [5u8; NH]);
    let (state, _, ke2) = answer(&renamed, &record, PASSWORD);
    let result = client::login_finish(state, &ke2, SERVER, IDENTITY);
    assert!(matches!(result, Err(OpaqueError::ServerAuthenticationError)));

    let state = client::login_start(PASSWORD);
    let mut session = server.initiate_session(IDENTITY.to_vec());
    let ke2 = session.login_start(&state.ke1, &record, b"someone@example.com").unwrap();
    let result = client::login_finish(state, &ke2, SERVER, IDENTITY);
    assert!(matches!(result, Err(OpaqueError::ServerAuthenticationError)));
}

#[test]
fn wrong_server_mac_is_noticed() {
    let server = server();
    let (record, _) = register(&server, PASSWORD);
    let (state, _, mut ke2) = answer(&server, &record, PASSWORD);
    ke2.server_mac[63] ^= 1;
    let result = client::login_finish(state, &ke2, SERVER, IDENTITY);
    assert!(matches!(result, Err(OpaqueError::ServerAuthenticationError)));
}

#[test]
fn changed_transcript_is_noticed() {
    let server = server();
    let (record, _) = register(&server, PASSWORD);
    let (state, _, mut ke2) = answer(&server, &record, PASSWORD);
    ke2.server_nonce[0] ^= 1;
    let result = client::login_finish(state, &ke2, SERVER, IDENTITY);
    assert!(matches!(result, Err(OpaqueError::ServerAuthenticationError)));
}

#[test]
fn wrong_client_mac_leaves_the_session_waiting() {
    let server = server();
    let (record, _) = register(&server, PASSWORD);
    let (state, mut session, ke2) = answer(&server, &record, PASSWORD);
    let (ke3, client_key, _) = client::login_finish(state, &ke2, SERVER, IDENTITY).unwrap();
    let mut wrong = Ke3 { client_mac: ke3.client_mac };
    wrong.client_mac[0] ^= 1;
    assert!(matches!(session.login_finish(&wrong), Err(OpaqueError::ClientAuthenticationError)));
    assert_eq!(session.login_finish(&ke3).unwrap().0, client_key.0);
}

#[test]
fn calls_out_of_order_on_an_idle_session() {
    let server = server();
    let (record, _) = register(&server, PASSWORD);
    let mut session = server.initiate_session(IDENTITY.to_vec());
    assert!(is_out_of_order(session.registration_finish(record), "unexpected session state"));
    let ke3 = Ke3 { client_mac: [0u8; 64] };
    assert!(is_out_of_order(session.login_finish(&ke3), "expected LoginAwaitingKe3"));
    let (_, request) = client::registration_start(PASSWORD);
    assert!(session.registration_start(&request).is_ok());
}

#[test]
fn calls_out_of_order_during_registration() {
    let server = server();
    let (record, _) = register(&server, PASSWORD);
    let (_, request) = client::registration_start(PASSWORD);
    let mut session = server.initiate_session(IDENTITY.to_vec());
    session.registration_start(&request).unwrap();
    let unexpected = "unexpected session state";
    assert!(is_out_of_order(session.registration_start(&request), unexpected));
    let state = client::login_start(PASSWORD);
    assert!(is_out_of_order(session.login_start(&state.ke1, &record, IDENTITY), unexpected));
    let ke3 = Ke3 { client_mac: [0u8; 64] };
    assert!(is_out_of_order(session.login_finish(&ke3), "expected LoginAwaitingKe3"));
    assert!(session.registration_finish(record).is_ok());
}

#[test]
fn calls_out_of_order_during_login() {
    let server = server();
    let (record, _) = register(&server, PASSWORD);
    let (state, mut session, ke2) = answer(&server, &record, PASSWORD);
    let unexpected = "unexpected session state";
    let (_, request) = client::registration_start(PASSWORD);
    assert!(is_out_of_order(session.registration_start(&request), unexpected));
    assert!(is_out_of_order(session.login_start(&state.ke1, &record, IDENTITY), unexpected));
    assert!(is_out_of_order(session.registration_finish(record), unexpected));
    let (ke3, _, _) = client::login_finish(state, &ke2, SERVER, IDENTITY).unwrap();
    assert!(session.login_finish(&ke3).is_ok());
}

#[test]
fn completed_session_refuses_every_call() {
    let server = server();
    let (record, _) = register(&server, PASSWORD);
    let (state, mut session, ke2) = answer(&server, &record, PASSWORD);
    let (ke3, _, _) = client::login_finish(state, &ke2, SERVER, IDENTITY).unwrap();
    session.login_finish(&ke3).unwrap();
    let unexpected = "unexpected session state";
    assert!(is_out_of_order(session.login_finish(&ke3), "expected LoginAwaitingKe3"));
    let (_, request) = client::registration_start(PASSWORD);
    assert!(is_out_of_order(session.registration_start(&request), unexpected));
    let state = client::login_start(PASSWORD);
    assert!(is_out_of_order(session.login_start(&state.ke1, &record, IDENTITY), unexpected));
    assert!(is_out_of_order(session.registration_finish(record), unexpected));
}

#[test]
fn badly_encoded_elements_are_reported() {
    let server = server();
    let bad = [255u8; 32];
    let mut session = server.initiate_session(IDENTITY.to_vec());
    assert!(session.try_registration_start(&RegistrationRequest { blinded_element: bad }).is_none());

    let (blind, request) = client::registration_start(PASSWORD);
    let response = session.try_registration_start(&request).unwrap().unwrap();
    let bad_response = RegistrationResponse { evaluated_element: bad, ..response };
    assert!(client::try_registration_finish(&blind, &bad_response, SERVER, IDENTITY).is_none());

    let (record, _) = register(&server, PASSWORD);
    let mut state = client::login_start(PASSWORD);
    let good = state.ke1.client_ephemeral_pk;
    state.ke1.client_ephemeral_pk = bad;
    let mut session = server.initiate_session(IDENTITY.to_vec());
    assert!(session.try_login_start(&state.ke1, &record, IDENTITY).is_none());
    state.ke1.client_ephemeral_pk = good;
    let ke2 = session.try_login_start(&state.ke1, &record, IDENTITY).unwrap().unwrap();
    let bad_ke2 = Ke2 { server_ephemeral_pk: bad, ..ke2 };
    assert!(client::try_login_finish(state, &bad_ke2, SERVER, IDENTITY).is_none());
}

#[test]
fn badly_encoded_elements_do_not_matter_out_of_order() {
    let server = server();
    let mut session = server.initiate_session(IDENTITY.to_vec());
    let (_, request) = client::registration_start(PASSWORD);
    session.registration_start(&request).unwrap();
    let bad = RegistrationRequest { blinded_element: [255u8; 32] };
    assert!(is_out_of_order(
        session.try_registration_start(&bad).unwrap(),
        "unexpected session state"
    ));
}

#[test]
fn badly_encoded_server_keys_do_not_matter_behind_a_closed_envelope() {
    let server = server();
    let (record, _) = register(&server, PASSWORD);
    let (state, _, ke2) = answer(&server, &record, b"wrong");
    let ke2 = Ke2 { server_ephemeral_pk: [255u8; 32], ..ke2 };
    let result = client::try_login_finish(state, &ke2, SERVER, IDENTITY).unwrap();
    assert!(matches!(result, Err(OpaqueError::EnvelopeRecoveryError)));
}

#[test]
fn checked_calls_complete_a_flow() {
    let server = server();
    let (blind, request) = client::registration_start(PASSWORD);
    let mut session = server.initiate_session(IDENTITY.to_vec());
    let response = session.try_registration_start(&request).unwrap().unwrap();
    let (record, export_key) =
        client::try_registration_finish(&blind, &response, SERVER, IDENTITY).unwrap();
    let record = session.registration_finish(record).unwrap();
    let state = client::login_start(PASSWORD);
    let mut session = server.initiate_session(IDENTITY.to_vec());
    let ke2 = session.try_login_start(&state.ke1, &record, IDENTITY).unwrap().unwrap();
    let (ke3, key, login_export_key) =
        client::try_login_finish(state, &ke2, SERVER, IDENTITY).unwrap().unwrap();
    assert_eq!(session.login_finish(&ke3).unwrap().0, key.0);
    assert_eq!(login_export_key, export_key);
}

#[test]
fn zero_blind_is_the_exception() {
    // The blinding scalar zero loses the password: what is recovered with it is
    // not what another login recovers.
    let server = server();
    let (blind, request) = client::registration_start_with(PASSWORD, &[0u8; 64]);
    assert_eq!(request.blinded_element, [0u8; 32]);
    let mut session = server.initiate_session(IDENTITY.to_vec());
    let response = session.registration_start(&request).unwrap();
    let (record, _) = client::registration_finish(&blind, &response, SERVER, IDENTITY);
    let (state, _, ke2) = answer(&server, &record, PASSWORD);
    let result = client::login_finish(state, &ke2, SERVER, IDENTITY);
    assert!(matches!(result, Err(OpaqueError::EnvelopeRecoveryError)));
}

#[test]
fn different_blinds_give_different_requests() {
    let mut requests = Vec::new();
    for first in 0..4u8 {
        let mut random = [0u8; 64];
        random[0] = first;
        let (blind, request) = client::registration_start_with(PASSWORD, &random);
        let mut expected = [0u8; 32];
        expected[0] = first;
        assert_eq!(blind.to_bytes(), expected);
        assert!(!requests.contains(&request.blinded_element));
        requests.push(request.blinded_element);
    }
}

#[test]
fn random_values_are_drawn_anew() {
    let (blind1, request1) = client::registration_start(PASSWORD);
    let (blind2, request2) = client::registration_start(PASSWORD);
    assert_ne!(blind1.to_bytes(), blind2.to_bytes());
    assert_ne!(request1.blinded_element, request2.blinded_element);
    let (state1, state2) = (client::login_start(PASSWORD), client::login_start(PASSWORD));
    assert_ne!(state1.ke1.client_nonce, state2.ke1.client_nonce);
    assert_ne!(state1.ke1.client_ephemeral_pk, state2.ke1.client_ephemeral_pk);
}

#[test]
fn server_is_determined_by_identity_and_seeds() {
    let first = server();
    let second = Server::with_identity(SERVER.to_vec(), [3u8; NH], [5u8; NH]);
    assert_eq!(first.public_key_bytes(), second.public_key_bytes());
    assert_eq!(first.identity(), SERVER);
    let copy = first.clone();
    assert_eq!(copy.public_key_bytes(), first.public_key_bytes());
    assert_eq!(copy.identity(), first.identity());
    let other = Server::new(SERVER.to_vec(), [3u8; NH], [6u8; NH]);
    assert_ne!(other.public_key_bytes(), first.public_key_bytes());
}

#[test]
fn identifiers_keep_evaluations_apart() {
    let server = server();
    let (_, request) = client::registration_start(PASSWORD);
    let first = server.session_for(b"a".to_vec()).registration_start(&request).unwrap();
    let again = server.session_for(b"a".to_vec()).registration_start(&request).unwrap();
    let second = server.session_for(b"b".to_vec()).registration_start(&request).unwrap();
    assert_eq!(first.evaluated_element, again.evaluated_element);
    assert_ne!(first.evaluated_element, second.evaluated_element);
}

fn assert_shareable<T: Send + Sync>() {}

#[test]
fn server_and_session_are_send_and_sync() {
    assert_shareable::<Server>();
    assert_shareable::<OpaqueSession>();
}

#[test]
fn error_messages() {
    assert_eq!(OpaqueError::EnvelopeRecoveryError.to_string(), "envelope auth tag mismatch");
    assert_eq!(
        OpaqueError::ServerAuthenticationError.to_string(),
        "server MAC verification failed"
    );
    assert_eq!(
        OpaqueError::ClientAuthenticationError.to_string(),
        "client MAC verification failed"
    );
    assert_eq!(OpaqueError::InvalidState("x").to_string(), "invalid state: x");
}
