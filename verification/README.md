# OPAQUE

The OPAQUE asymmetric password-authenticated key exchange in Verus: executable
Rust whose behaviour is stated in contracts and proved.

OPAQUE lets a client authenticate to a server with a password that the server never
sees, neither at registration nor at login. The server stores only a
`RegistrationRecord`.

```text
REGISTRATION

Client                              Server
  |-- RegistrationRequest -------->  |   (blinded password)
  |<-- RegistrationResponse -------  |   (OPRF evaluation + server pk)
  |-- RegistrationRecord --------->  |   (envelope + client pk; stored)

LOGIN

Client                              Server
  |-- KE1 ------------------------>  |   (blinded password + ephemeral pk)
  |<-- KE2 ------------------------  |   (OPRF eval + envelope + server MAC)
  |-- KE3 ------------------------>  |   (client MAC)

Both sides derive the same session key.
```

| Role | Primitive |
|---|---|
| OPRF group | Ristretto255 (curve25519-dalek) |
| KDF | HKDF-SHA-512 |
| MAC | HMAC-SHA-512 |
| AKE | 3DH over Ristretto255 |

## Layout

| Path | What it holds |
|---|---|
| `src/server.rs` | `Server`, the session state machine `OpaqueSession`, `SessionKey` |
| `src/client.rs` | Stateless functions for registration and login |
| `src/wire_structs.rs` | The byte-array structs that cross the network |
| `src/utils.rs` | OPRF, key derivation, MACs, transcript |
| `src/group.rs` | Scalars and group elements |
| `src/jwt.rs`, `src/base64.rs` | JSON Web Tokens |
| `src/bytes.rs` | Byte strings |
| `src/model.rs` | The protocol as mathematics |
| `src/laws.rs` | What holds of the protocol as a whole |
| `app/` | Ordinary Rust around the library |

The group arithmetic, the hash functions, the random generator and the token library
are outside crates. What is taken from each is stated in the contract of a small
function marked as trusted; everything else is proved.

## Notes

- The OPRF seed and the server key seed must be secret and persistent. Losing them
  invalidates all existing registration records.
- `credential_identifier` must identify a user uniquely on the server. The value of
  `client_identity` will do.
- `export_key` comes from the client's password, and the server never sees it.
- `utils::stretch` is the identity function. Replace it with Argon2id or scrypt before
  production use.
- `SessionKey::verify_jwt` accepts tokens signed with HS256 whose audience claim is
  `access`.
- A message with a badly encoded group element is outside the contract of the plain
  functions. Their `try_` counterparts check for it.
