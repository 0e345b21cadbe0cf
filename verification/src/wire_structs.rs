//! Plain byte-array structs that cross the network boundary.
//!
//! These types carry no serialization logic intentionally: add `serde`
//! derives or a manual codec before sending over a real transport. Each has a
//! view, in which every field is the sequence of its bytes.
use crate::{NH, NM, NN};
use vstd::prelude::*;

verus! {

/// **Client to server**, registration step 1.
///
/// Contains the client's OPRF-blinded password element.
pub struct RegistrationRequest {
    pub blinded_element: [u8; 32],
}

/// **Server to client**, registration step 2.
///
/// Contains the server's OPRF evaluation of the blinded element
/// and the server's static public key.
pub struct RegistrationResponse {
    pub evaluated_element: [u8; 32],
    pub server_public_key: [u8; 32],
}

/// **Client to server**, registration step 3.
///
/// Stored permanently in the server's database keyed by `credential_identifier`.
/// Contains everything the server needs to authenticate the client in future
/// logins, but reveals nothing about the password.
pub struct RegistrationRecord {
    pub client_public_key: [u8; 32],
    pub masking_key: [u8; NH],
    pub envelope_nonce: [u8; NN],
    pub envelope_auth_tag: [u8; NM],
}

/// **Client to server**, login step 1.
///
/// Contains the blinded password element and the client's ephemeral AKE key.
pub struct Ke1 {
    pub blinded_element: [u8; 32],
    pub client_nonce: [u8; NN],
    pub client_ephemeral_pk: [u8; 32],
}

/// **Server to client**, login step 2.
///
/// Contains the OPRF evaluation, the credential envelope, the server's static
/// and ephemeral AKE keys, and the server's MAC over the handshake transcript.
pub struct Ke2 {
    pub evaluated_element: [u8; 32],
    pub envelope_nonce: [u8; NN],
    pub envelope_auth_tag: [u8; NM],
    /// Server static public key, included in the credential response.
    pub server_public_key: [u8; 32],
    pub server_nonce: [u8; NN],
    pub server_ephemeral_pk: [u8; 32],
    pub server_mac: [u8; NM],
}

/// **Client to server**, login step 3.
///
/// Contains the client's MAC over the handshake transcript, proving knowledge
/// of the password and binding the session.
pub struct Ke3 {
    pub client_mac: [u8; NM],
}

// ---------------------------------------------------------------------------
// Views
// ---------------------------------------------------------------------------

/// The bytes of a [`RegistrationRequest`].
pub struct RegistrationRequestView {
    pub blinded_element: Seq<u8>,
}

/// The bytes of a [`RegistrationResponse`].
pub struct RegistrationResponseView {
    pub evaluated_element: Seq<u8>,
    pub server_public_key: Seq<u8>,
}

/// The bytes of a [`RegistrationRecord`].
pub struct RegistrationRecordView {
    pub client_public_key: Seq<u8>,
    pub masking_key: Seq<u8>,
    pub envelope_nonce: Seq<u8>,
    pub envelope_auth_tag: Seq<u8>,
}

/// The bytes of a [`Ke1`].
pub struct Ke1View {
    pub blinded_element: Seq<u8>,
    pub client_nonce: Seq<u8>,
    pub client_ephemeral_pk: Seq<u8>,
}

/// The bytes of a [`Ke2`].
pub struct Ke2View {
    pub evaluated_element: Seq<u8>,
    pub envelope_nonce: Seq<u8>,
    pub envelope_auth_tag: Seq<u8>,
    pub server_public_key: Seq<u8>,
    pub server_nonce: Seq<u8>,
    pub server_ephemeral_pk: Seq<u8>,
    pub server_mac: Seq<u8>,
}

impl View for RegistrationRequest {
    type V = RegistrationRequestView;

    open spec fn view(&self) -> RegistrationRequestView {
        RegistrationRequestView { blinded_element: self.blinded_element@ }
    }
}

impl View for RegistrationResponse {
    type V = RegistrationResponseView;

    open spec fn view(&self) -> RegistrationResponseView {
        RegistrationResponseView {
            evaluated_element: self.evaluated_element@,
            server_public_key: self.server_public_key@,
        }
    }
}

impl View for RegistrationRecord {
    type V = RegistrationRecordView;

    open spec fn view(&self) -> RegistrationRecordView {
        RegistrationRecordView {
            client_public_key: self.client_public_key@,
            masking_key: self.masking_key@,
            envelope_nonce: self.envelope_nonce@,
            envelope_auth_tag: self.envelope_auth_tag@,
        }
    }
}

impl View for Ke1 {
    type V = Ke1View;

    open spec fn view(&self) -> Ke1View {
        Ke1View {
            blinded_element: self.blinded_element@,
            client_nonce: self.client_nonce@,
            client_ephemeral_pk: self.client_ephemeral_pk@,
        }
    }
}

impl View for Ke2 {
    type V = Ke2View;

    open spec fn view(&self) -> Ke2View {
        Ke2View {
            evaluated_element: self.evaluated_element@,
            envelope_nonce: self.envelope_nonce@,
            envelope_auth_tag: self.envelope_auth_tag@,
            server_public_key: self.server_public_key@,
            server_nonce: self.server_nonce@,
            server_ephemeral_pk: self.server_ephemeral_pk@,
            server_mac: self.server_mac@,
        }
    }
}

// ---------------------------------------------------------------------------
// Field lengths
// ---------------------------------------------------------------------------

impl Ke1View {
    /// Every field has the length that the wire format gives it.
    pub open spec fn well_formed(self) -> bool {
        &&& self.blinded_element.len() == 32
        &&& self.client_nonce.len() == NN
        &&& self.client_ephemeral_pk.len() == 32
    }
}

impl Ke2View {
    /// Every field has the length that the wire format gives it.
    pub open spec fn well_formed(self) -> bool {
        &&& self.evaluated_element.len() == 32
        &&& self.envelope_nonce.len() == NN
        &&& self.envelope_auth_tag.len() == NM
        &&& self.server_public_key.len() == 32
        &&& self.server_nonce.len() == NN
        &&& self.server_ephemeral_pk.len() == 32
        &&& self.server_mac.len() == NM
    }
}

} // verus!
