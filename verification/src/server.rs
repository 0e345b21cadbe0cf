//! The server: [`Server`] holds the long-lived parameters, [`OpaqueSession`] is
//! the state machine of one registration or one login, and [`SessionKey`] is what
//! a login ends with on both sides.
use crate::bytes::{array32_at, concat, concat3, equal};
use crate::group::{
    is_group_element, is_key_pair, ristretto_decodes, RistrettoPoint, Scalar,
};
use crate::jwt::{
    accept, carries, claims_bytes, claims_hold, claims_of, encode, has_claims, has_header,
    is_shared_key_algorithm, json_value, jwt_accepts, jwt_header_decodes, law_claims_unique, texts,
    JwtError, JwtHeader,
};
use crate::model;
use crate::model::ServerView;
use crate::utils::{
    build_preamble, decompress, derive_dh_keypair, derive_keys, dh, hash, is_valid_element, mac_fn,
    draw, is_draw, oprf_derive_key,
};
use crate::wire_structs::{
    Ke1, Ke1View, Ke2, Ke3, RegistrationRecord, RegistrationRecordView, RegistrationRequest,
    RegistrationRequestView, RegistrationResponse,
};
use crate::{OpaqueError, NH, NM, NN, NSEED};
use std::sync::Arc;
use vstd::prelude::*;

verus! {

// ---------------------------------------------------------------------------
// Server
// ---------------------------------------------------------------------------

/// Long-lived server parameters. Cheap to clone, and `Send + Sync`, so it can be
/// shared across threads.
pub struct Server {
    inner: Arc<ServerInner>,
}

struct ServerInner {
    /// Static AKE key pair, shared across all clients
    static_sk: Scalar,
    static_pk: RistrettoPoint,
    /// Global OPRF seed, used to derive per-client OPRF keys
    oprf_seed: [u8; NH],
    /// Server identity string (e.g. b"example.com")
    identity: Vec<u8>,
}

impl View for Server {
    type V = ServerView;

    closed spec fn view(&self) -> ServerView {
        ServerView {
            static_sk: self.inner.static_sk@,
            static_pk: self.inner.static_pk@,
            oprf_seed: self.inner.oprf_seed@,
            identity: self.inner.identity@,
        }
    }
}

impl Clone for Server {
    fn clone(&self) -> (copy: Self)
        ensures
            copy@ == self@,
    {
        proof {
            use_type_invariant(self);
        }
        Server { inner: self.inner.clone() }
    }
}

impl Server {
    #[verifier::type_invariant]
    spec fn keys_match(self) -> bool {
        is_key_pair(self.inner.static_sk@, self.inner.static_pk@)
    }

    /// A server with the keys that the two seeds determine. The seeds are secret
    /// and must be persisted: losing them invalidates all existing registration
    /// records.
    pub fn new<I: Into<Vec<u8>>>(
        identity: I,
        oprf_seed: [u8; NH],
        key_seed: [u8; NH],
    ) -> (server: Self)
        ensures
            exists|id: Vec<u8>| #[trigger]
                call_ensures(I::into, (identity,), id) && server@ == model::seeded_server(
                    id@,
                    oprf_seed@,
                    key_seed@,
                ),
            server@.well_formed(),
    {
        let id: Vec<u8> = identity.into();
        Self::with_identity(id, oprf_seed, key_seed)
    }

    /// [`Server::new`] with the identity already in bytes.
    pub fn with_identity(identity: Vec<u8>, oprf_seed: [u8; NH], key_seed: [u8; NH]) -> (server:
        Self)
        ensures
            server@ == model::seeded_server(identity@, oprf_seed@, key_seed@),
            server@.well_formed(),
    {
        let static_sk = Scalar::from_bytes_mod_order_wide(&key_seed);
        let static_pk = RistrettoPoint::mul_base(&static_sk);
        Server { inner: Arc::new(ServerInner { static_sk, static_pk, oprf_seed, identity }) }
    }

    /// The encoding of the server's static public key.
    pub fn public_key_bytes(&self) -> (bytes: [u8; 32])
        ensures
            bytes@ == self@.static_pk,
            is_group_element(bytes@),
            self@.well_formed(),
    {
        proof {
            use_type_invariant(self);
        }
        self.inner.static_pk.compress()
    }

    /// The server's identity.
    pub fn identity(&self) -> (identity: &[u8])
        ensures
            identity@ == self@.identity,
    {
        &self.inner.identity
    }

    /// Creates a new session, which is idle.
    pub fn initiate_session<I: Into<Vec<u8>>>(&self, credential_identifier: I) -> (session:
        OpaqueSession)
        ensures
            exists|id: Vec<u8>| #[trigger]
                call_ensures(I::into, (credential_identifier,), id) && session@ == (SessionView {
                    server: self@,
                    credential_identifier: id@,
                    phase: SessionPhase::Idle,
                }),
    {
        let id: Vec<u8> = credential_identifier.into();
        self.session_for(id)
    }

    /// [`Server::initiate_session`] with the identifier already in bytes.
    pub fn session_for(&self, credential_identifier: Vec<u8>) -> (session: OpaqueSession)
        ensures
            session@ == (SessionView {
                server: self@,
                credential_identifier: credential_identifier@,
                phase: SessionPhase::Idle,
            }),
    {
        OpaqueSession { server: self.clone(), credential_identifier, state: SessionState::Idle }
    }
}

// ---------------------------------------------------------------------------
// Session state machine
// ---------------------------------------------------------------------------

/// All states an [`OpaqueSession`] can be in.
enum SessionState {
    Idle,
    /// A registration request was answered.
    RegistrationAwaitingRecord,
    /// KE1 was answered.
    LoginAwaitingKe3 { expected_client_mac: [u8; NM], session_key: [u8; NH] },
    Completed,
}

/// The states of a session, with their contents as byte sequences.
pub enum SessionPhase {
    Idle,
    RegistrationAwaitingRecord,
    LoginAwaitingKe3 { expected_client_mac: Seq<u8>, session_key: Seq<u8> },
    Completed,
}

/// A session as its contracts see it.
pub struct SessionView {
    pub server: ServerView,
    pub credential_identifier: Seq<u8>,
    pub phase: SessionPhase,
}

impl View for SessionState {
    type V = SessionPhase;

    closed spec fn view(&self) -> SessionPhase {
        match *self {
            SessionState::Idle => SessionPhase::Idle,
            SessionState::RegistrationAwaitingRecord => SessionPhase::RegistrationAwaitingRecord,
            SessionState::LoginAwaitingKe3 {
                expected_client_mac,
                session_key,
            } => SessionPhase::LoginAwaitingKe3 {
                expected_client_mac: expected_client_mac@,
                session_key: session_key@,
            },
            SessionState::Completed => SessionPhase::Completed,
        }
    }
}

/// A per-user session. Drives both registration and login as a state machine.
pub struct OpaqueSession {
    server: Server,
    credential_identifier: Vec<u8>,
    state: SessionState,
}

impl View for OpaqueSession {
    type V = SessionView;

    closed spec fn view(&self) -> SessionView {
        SessionView {
            server: self.server@,
            credential_identifier: self.credential_identifier@,
            phase: self.state@,
        }
    }
}

impl SessionView {
    /// The session in another phase.
    pub open spec fn moved_to(self, phase: SessionPhase) -> SessionView {
        SessionView { phase, ..self }
    }
}

/// The error for a call out of order, with the message it carries.
pub open spec fn out_of_order<T>(result: Result<T, OpaqueError>, message: &str) -> bool {
    result matches Err(OpaqueError::InvalidState(m)) && m@ == message@
}

impl OpaqueSession {
    // -----------------------------------------------------------------------
    // Registration, server side
    // -----------------------------------------------------------------------

    /// Step 1 of registration (server): process the request, give the response.
    pub fn registration_start(&mut self, request: &RegistrationRequest) -> (result: Result<
        RegistrationResponse,
        OpaqueError,
    >)
        requires
            old(self)@.phase is Idle ==> ristretto_decodes(request.blinded_element@),
        ensures
            registration_start_step(old(self)@, request@, final(self)@, result),
    {
        match self.state {
            SessionState::Idle => {},
            _ => return Err(OpaqueError::InvalidState("unexpected session state")),
        }
        let oprf_key = oprf_derive_key(
            &self.server.inner.oprf_seed,
            &self.credential_identifier,
        );
        let blinded = decompress(&request.blinded_element);
        let evaluated_element = blinded.mul(&oprf_key).compress();
        let server_public_key = self.server.public_key_bytes();
        self.state = SessionState::RegistrationAwaitingRecord;
        Ok(RegistrationResponse { evaluated_element, server_public_key })
    }

    /// [`OpaqueSession::registration_start`], or `None`, with the session as it
    /// was, when it would read a badly encoded element from `request`.
    pub fn try_registration_start(&mut self, request: &RegistrationRequest) -> (result: Option<
        Result<RegistrationResponse, OpaqueError>,
    >)
        ensures
            result is Some <==> (old(self)@.phase is Idle ==> ristretto_decodes(
                request.blinded_element@,
            )),
            result matches Some(r) ==> registration_start_step(
                old(self)@,
                request@,
                final(self)@,
                r,
            ),
            result is None ==> final(self)@ == old(self)@,
    {
        let idle = match self.state {
            SessionState::Idle => true,
            _ => false,
        };
        if idle && !is_valid_element(&request.blinded_element) {
            return None;
        }
        Some(self.registration_start(request))
    }

    /// Step 2 of registration (server): receive the record.
    /// The caller persists the returned record to a database.
    pub fn registration_finish(&mut self, record: RegistrationRecord) -> (result: Result<
        RegistrationRecord,
        OpaqueError,
    >)
        ensures
            registration_finish_step(old(self)@, record, final(self)@, result),
    {
        match self.state {
            SessionState::RegistrationAwaitingRecord => {},
            _ => return Err(OpaqueError::InvalidState("unexpected session state")),
        }
        self.state = SessionState::Completed;
        Ok(record)
    }

    // -----------------------------------------------------------------------
    // Login, server side
    // -----------------------------------------------------------------------

    /// Step 1 of login (server): process KE1, give KE2.
    ///
    /// `record` is the record previously stored for this client, and
    /// `client_identity` the client's identity string (e.g. their username).
    pub fn login_start(
        &mut self,
        ke1: &Ke1,
        record: &RegistrationRecord,
        client_identity: &[u8],
    ) -> (result: Result<Ke2, OpaqueError>)
        requires
            old(self)@.phase is Idle ==> login_elements_decode(ke1@, record@),
        ensures
            exists|random: [u8; 64]| #[trigger]
                is_draw(random) && login_start_step(
                    old(self)@,
                    ke1@,
                    record@,
                    client_identity@,
                    random@.subrange(0, 32),
                    random@.subrange(32, 64),
                    final(self)@,
                    result,
                ),
    {
        let random: [u8; 64] = draw();
        let keyshare_seed: [u8; NSEED] = array32_at(&random, 0);
        let server_nonce: [u8; NN] = array32_at(&random, 32);
        self.login_start_with(ke1, record, client_identity, &keyshare_seed, server_nonce)
    }

    /// [`OpaqueSession::login_start`] with the seed of the ephemeral keys and the
    /// nonce given.
    pub fn login_start_with(
        &mut self,
        ke1: &Ke1,
        record: &RegistrationRecord,
        client_identity: &[u8],
        keyshare_seed: &[u8; NSEED],
        server_nonce: [u8; NN],
    ) -> (result: Result<Ke2, OpaqueError>)
        requires
            old(self)@.phase is Idle ==> login_elements_decode(ke1@, record@),
        ensures
            login_start_step(
                old(self)@,
                ke1@,
                record@,
                client_identity@,
                keyshare_seed@,
                server_nonce@,
                final(self)@,
                result,
            ),
    {
        match self.state {
            SessionState::Idle => {},
            _ => return Err(OpaqueError::InvalidState("unexpected session state")),
        }

        // Credential retrieval: re-evaluate OPRF
        let oprf_key = oprf_derive_key(
            &self.server.inner.oprf_seed,
            &self.credential_identifier,
        );
        let blinded = decompress(&ke1.blinded_element);
        let evaluated_element = blinded.mul(&oprf_key).compress();

        // Server ephemeral key pair
        let (server_ephemeral_sk, server_ephemeral_pk) = derive_dh_keypair(keyshare_seed);

        let ke2 = Ke2 {
            evaluated_element,
            envelope_nonce: record.envelope_nonce,
            envelope_auth_tag: record.envelope_auth_tag,
            server_public_key: self.server.public_key_bytes(),
            server_nonce,
            server_ephemeral_pk: server_ephemeral_pk.compress(),
            server_mac: [0u8; NM],
        };

        // 3DH, server perspective:
        //   dh1 = server_ephemeral_sk x client_ephemeral_pk  (ephemeral-ephemeral)
        //   dh2 = server_static_sk    x client_ephemeral_pk  (static-ephemeral)
        //   dh3 = server_ephemeral_sk x client_static_pk     (ephemeral-static)
        let client_ephemeral_pk = decompress(&ke1.client_ephemeral_pk);
        let client_static_pk = decompress(&record.client_public_key);
        let dh1 = dh(&server_ephemeral_sk, &client_ephemeral_pk);
        let dh2 = dh(&self.server.inner.static_sk, &client_ephemeral_pk);
        let dh3 = dh(&server_ephemeral_sk, &client_static_pk);
        let ikm = concat3(&dh1, &dh2, &dh3);

        let preamble = build_preamble(client_identity, ke1, &self.server.inner.identity, &ke2);
        let (km2, km3, session_key) = derive_keys(&ikm, &preamble);

        let server_mac = mac_fn(&km2, &hash(&preamble));
        let expected_client_mac = mac_fn(&km3, &hash(&concat(&preamble, &server_mac)));
        assert(ke2.server_mac@ =~= Seq::new(NM as nat, |i: int| 0u8));

        self.state = SessionState::LoginAwaitingKe3 { expected_client_mac, session_key };
        Ok(Ke2 { server_mac, ..ke2 })
    }

    /// [`OpaqueSession::login_start`], or `None`, with the session as it was, when
    /// it would read a badly encoded element from `ke1` or `record`.
    pub fn try_login_start(
        &mut self,
        ke1: &Ke1,
        record: &RegistrationRecord,
        client_identity: &[u8],
    ) -> (result: Option<Result<Ke2, OpaqueError>>)
        ensures
            result is Some <==> (old(self)@.phase is Idle ==> login_elements_decode(
                ke1@,
                record@,
            )),
            result matches Some(r) ==> exists|random: [u8; 64]| #[trigger]
                is_draw(random) && login_start_step(
                    old(self)@,
                    ke1@,
                    record@,
                    client_identity@,
                    random@.subrange(0, 32),
                    random@.subrange(32, 64),
                    final(self)@,
                    r,
                ),
            result is None ==> final(self)@ == old(self)@,
    {
        let idle = match self.state {
            SessionState::Idle => true,
            _ => false,
        };
        if idle && !(is_valid_element(&ke1.blinded_element) && is_valid_element(
            &ke1.client_ephemeral_pk,
        ) && is_valid_element(&record.client_public_key)) {
            return None;
        }
        Some(self.login_start(ke1, record, client_identity))
    }

    /// Step 2 of login (server): verify KE3, return the session key.
    ///
    /// A wrong MAC leaves the session as it was.
    pub fn login_finish(&mut self, ke3: &Ke3) -> (result: Result<SessionKey, OpaqueError>)
        ensures
            login_finish_step(old(self)@, ke3.client_mac@, final(self)@, result),
    {
        let (expected_client_mac, session_key) = match &self.state {
            SessionState::LoginAwaitingKe3 { expected_client_mac, session_key } => (
                *expected_client_mac,
                *session_key,
            ),
            _ => return Err(OpaqueError::InvalidState("expected LoginAwaitingKe3")),
        };
        if !equal(&ke3.client_mac, &expected_client_mac) {
            return Err(OpaqueError::ClientAuthenticationError);
        }
        self.state = SessionState::Completed;
        Ok(SessionKey(session_key))
    }
}

/// What [`OpaqueSession::registration_finish`] does to a session and returns.
pub open spec fn registration_finish_step(
    before: SessionView,
    record: RegistrationRecord,
    after: SessionView,
    result: Result<RegistrationRecord, OpaqueError>,
) -> bool {
    match before.phase {
        SessionPhase::RegistrationAwaitingRecord => {
            &&& result matches Ok(stored) && stored == record
            &&& after == before.moved_to(SessionPhase::Completed)
        },
        _ => {
            &&& out_of_order(result, "unexpected session state")
            &&& after == before
        },
    }
}

/// What [`OpaqueSession::login_finish`] does to a session and returns when KE3
/// carries `client_mac`.
pub open spec fn login_finish_step(
    before: SessionView,
    client_mac: Seq<u8>,
    after: SessionView,
    result: Result<SessionKey, OpaqueError>,
) -> bool {
    match before.phase {
        SessionPhase::LoginAwaitingKe3 { expected_client_mac, session_key } => {
            if client_mac == expected_client_mac {
                &&& result matches Ok(key) && key.0@ == session_key
                &&& after == before.moved_to(SessionPhase::Completed)
            } else {
                &&& result matches Err(e) && e is ClientAuthenticationError
                &&& after == before
            }
        },
        _ => {
            &&& out_of_order(result, "expected LoginAwaitingKe3")
            &&& after == before
        },
    }
}

/// Whether the group elements that the first step of a login reads are well
/// encoded.
pub open spec fn login_elements_decode(ke1: Ke1View, record: RegistrationRecordView) -> bool {
    &&& ristretto_decodes(ke1.blinded_element)
    &&& ristretto_decodes(ke1.client_ephemeral_pk)
    &&& ristretto_decodes(record.client_public_key)
}

/// What [`OpaqueSession::login_start`] does to a session and returns when it
/// draws this seed and this nonce.
pub open spec fn login_start_step(
    before: SessionView,
    ke1: Ke1View,
    record: RegistrationRecordView,
    client_identity: Seq<u8>,
    keyshare_seed: Seq<u8>,
    server_nonce: Seq<u8>,
    after: SessionView,
    result: Result<Ke2, OpaqueError>,
) -> bool {
    match before.phase {
        SessionPhase::Idle => {
            let response = model::login_response(
                before.server,
                before.credential_identifier,
                ke1,
                record,
                client_identity,
                keyshare_seed,
                server_nonce,
            );
            &&& result matches Ok(ke2) && ke2@ == response.ke2 && is_group_element(
                ke2.evaluated_element@,
            ) && is_key_pair(
                model::seeded_private_key(keyshare_seed),
                ke2.server_ephemeral_pk@,
            )
            &&& after == before.moved_to(
                SessionPhase::LoginAwaitingKe3 {
                    expected_client_mac: response.expected_client_mac,
                    session_key: response.session_key,
                },
            )
        },
        _ => {
            &&& out_of_order(result, "unexpected session state")
            &&& after == before
        },
    }
}

/// What [`OpaqueSession::registration_start`] does to a session and returns.
pub open spec fn registration_start_step(
    before: SessionView,
    request: RegistrationRequestView,
    after: SessionView,
    result: Result<RegistrationResponse, OpaqueError>,
) -> bool {
    match before.phase {
        SessionPhase::Idle => {
            &&& result matches Ok(response) && response@ == model::registration_response(
                before.server,
                before.credential_identifier,
                request,
            ) && is_group_element(response.evaluated_element@)
            &&& after == before.moved_to(SessionPhase::RegistrationAwaitingRecord)
        },
        _ => {
            &&& out_of_order(result, "unexpected session state")
            &&& after == before
        },
    }
}

/// Output of a completed login on both sides.
pub struct SessionKey(pub [u8; NH]);

/// Whether [`SessionKey::verify_jwt`] accepts a token when the clock shows `now`
/// seconds.
pub open spec fn accepted(token: Seq<char>, key: Seq<u8>, now: u64) -> bool {
    jwt_accepts(token, key, "HS256"@, "access"@, now)
}

/// Whether a result of [`SessionKey::verify_jwt`] is the one for this time: the claims
/// within the token exactly when it is accepted, and then they hold.
pub open spec fn verified_at(
    token: Seq<char>,
    key: Seq<u8>,
    now: u64,
    verified: Result<Vec<u8>, JwtError>,
) -> bool {
    &&& verified is Ok <==> accepted(token, key, now)
    &&& verified matches Ok(claims) ==> has_claims(token, claims@) && claims_hold(
        claims@,
        "access"@,
        now,
    )
    &&& verified matches Err(e) ==> e is Verification
}

impl SessionKey {
    /// A JSON Web Token with these claims, which are JSON text, signed with this
    /// key.
    pub fn mint_jwt(&self, header: &JwtHeader, claims: &str) -> (token: Result<String, JwtError>)
        ensures
            token is Ok <==> is_shared_key_algorithm(header.algorithm@) && json_value(
                claims@,
            ) is Some,
            token matches Err(e) ==> e is Minting,
            token matches Ok(t) ==> carries(
                t@,
                self.0@,
                header.algorithm@,
                claims_bytes(claims@),
            ),
            token matches Ok(t) ==> (jwt_header_decodes(t@) ==> has_header(t@, *header)),
            token matches Ok(t) ==> (header.is_plain() ==> jwt_header_decodes(t@)),
    {
        match encode(header, claims, &self.0) {
            Ok(token) => Ok(token),
            Err(e) => Err(JwtError::Minting(e)),
        }
    }

    /// The claims of a JSON Web Token, as they stand in it, if it was signed with this
    /// key by HS256, has not expired, and its audience is `access`.
    pub fn verify_jwt(&self, token: &str) -> (claims: Result<Vec<u8>, JwtError>)
        ensures
            exists|now: u64| #[trigger] verified_at(token@, self.0@, now, claims),
    {
        let required: [&str; 2] = ["exp", "aud"];
        assert(texts(required@) =~= seq!["exp"@, "aud"@]);
        let result = accept(token, &self.0, "HS256", "access", &required);
        let ghost now = choose|now: u64|
            result.is_ok() == #[trigger] jwt_accepts(
                token@,
                self.0@,
                "HS256"@,
                "access"@,
                now,
            ) && (result is Ok ==> exists|claims: Seq<u8>| #[trigger]
                has_claims(token@, claims) && claims_hold(claims, "access"@, now));
        match result {
            Ok(_) => {
                let claims = claims_of(token);
                proof {
                    let within = choose|c: Seq<u8>| #[trigger]
                        has_claims(token@, c) && claims_hold(c, "access"@, now);
                    law_claims_unique(token@, claims@, within);
                    assert(verified_at(token@, self.0@, now, Ok(claims)));
                }
                Ok(claims)
            },
            Err(e) => {
                assert(verified_at(token@, self.0@, now, Err(JwtError::Verification(e))));
                Err(JwtError::Verification(e))
            },
        }
    }
}

} // verus!
