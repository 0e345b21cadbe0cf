//! OPAQUE, an asymmetric password-authenticated key exchange (aPAKE).
//!
//! The server never sees the client's password: not during registration, not
//! during login. An attacker who steals the registration database cannot run an
//! offline dictionary attack without also compromising the server's static private
//! key.
//!
//! # Protocol flow
//!
//! ```text
//! REGISTRATION
//!   client::registration_start                 gives RegistrationRequest
//!   server::OpaqueSession::registration_start  gives RegistrationResponse
//!   client::registration_finish                gives RegistrationRecord
//!   server::OpaqueSession::registration_finish gives the record to store
//!
//! LOGIN
//!   client::login_start                 gives Ke1
//!   server::OpaqueSession::login_start  gives Ke2
//!   client::login_finish                gives (Ke3, SessionKey, export_key)
//!   server::OpaqueSession::login_finish gives SessionKey
//! ```
//!
//! # Modules
//!
//! - [`client`] and [`server`]: the two sides; [`wire_structs`]: their messages.
//! - [`utils`], [`group`], [`bytes`], [`jwt`], [`base64`]: what the two sides are
//!   built from.
//! - [`model`]: the protocol as mathematics, which the contracts refer to.
//! - [`laws`]: what holds of the protocol as a whole; [`dependence`]: what each key, tag
//!   and element depends on.
//!
//! # Security notes
//!
//! - [`utils::stretch`] is the identity function. Replace it with Argon2id or
//!   scrypt before deploying.
//! - The seeds of [`server::Server::new`] are secret and must be persisted; losing
//!   them invalidates all existing registration records.
use vstd::prelude::*;

pub mod base64;
pub mod bytes;
pub mod client;
pub mod dependence;
pub mod group;
pub mod jwt;
pub mod laws;
pub mod model;
pub mod server;
pub mod utils;
pub mod wire_structs;

verus! {

/// HMAC with SHA-512.
pub type HmacSha512 = hmac::Hmac<sha2::Sha512>;

/// Length of a nonce, in bytes.
pub const NN: usize = 32;

/// Length of a hash output, in bytes.
pub const NH: usize = 64;

/// Length of a MAC, in bytes.
pub const NM: usize = 64;

/// Length of a key share seed, in bytes.
pub const NSEED: usize = 32;

/// Errors that can be returned during an OPAQUE handshake.
///
/// All variants indicate a fatal failure: the session must be discarded.
#[derive(Debug)]
pub enum OpaqueError {
    /// The envelope auth tag did not match, meaning the password was wrong
    /// or the stored record was corrupted.
    EnvelopeRecoveryError,
    /// The server MAC in KE2 did not verify. The server is not authentic
    /// (possible MITM or wrong server identity).
    ServerAuthenticationError,
    /// The client MAC in KE3 did not verify. The client did not prove knowledge
    /// of the password (wrong password after a valid server response).
    ClientAuthenticationError,
    /// A session method was called out of order.
    /// The `&'static str` payload names the violated precondition.
    InvalidState(&'static str),
}

impl OpaqueError {
    /// The message of this error.
    pub open spec fn message(self) -> Seq<char> {
        match self {
            OpaqueError::EnvelopeRecoveryError => "envelope auth tag mismatch"@,
            OpaqueError::ServerAuthenticationError => "server MAC verification failed"@,
            OpaqueError::ClientAuthenticationError => "client MAC verification failed"@,
            OpaqueError::InvalidState(msg) => "invalid state: "@ + msg@,
        }
    }

    /// The message of this error, for display.
    pub fn to_string(&self) -> (text: String)
        ensures
            text@ == self.message(),
    {
        match self {
            OpaqueError::EnvelopeRecoveryError => "envelope auth tag mismatch".to_owned(),
            OpaqueError::ServerAuthenticationError => "server MAC verification failed".to_owned(),
            OpaqueError::ClientAuthenticationError => "client MAC verification failed".to_owned(),
            OpaqueError::InvalidState(msg) => {
                let mut text: String = "invalid state: ".to_owned();
                text.append(msg);
                text
            },
        }
    }
}

} // verus!
