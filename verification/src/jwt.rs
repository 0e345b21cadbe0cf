//! JSON Web Tokens: what is taken from `jsonwebtoken` to sign claims with a
//! session key and to read them back.
//!
//! Claims are JSON text when a token is minted, and the bytes within the token when it
//! is verified. A caller that has them as a value of its own turns the value into text
//! before minting, and reads it from the bytes after verifying.
use crate::base64::{b64url, b64url_decode, law_b64url_injective, lemma_b64url_has_no_dot};
use std::collections::HashMap;
use vstd::prelude::*;

verus! {

// ---------------------------------------------------------------------------
// Outside types
// ---------------------------------------------------------------------------

/// A JSON Web Key, as a header may hold one.
#[verifier::external_type_specification]
#[verifier::external_body]
pub struct ExJwk(jsonwebtoken::jwk::Jwk);

/// Why a token could not be made or was not accepted.
#[verifier::external_type_specification]
#[verifier::external_body]
pub struct ExError(jsonwebtoken::errors::Error);

// ---------------------------------------------------------------------------
// Headers and errors
// ---------------------------------------------------------------------------

/// What stands in the header of a token that is to be minted.
#[derive(Clone)]
pub struct JwtHeader {
    /// The name of the signature algorithm, such as `HS256`.
    pub algorithm: String,
    /// The type of the token.
    pub typ: Option<String>,
    /// The content type.
    pub cty: Option<String>,
    /// The URL of a key set.
    pub jku: Option<String>,
    /// A key.
    pub jwk: Option<jsonwebtoken::jwk::Jwk>,
    /// The key identifier.
    pub kid: Option<String>,
    /// The URL of a certificate chain.
    pub x5u: Option<String>,
    /// A certificate chain.
    pub x5c: Option<Vec<String>>,
    /// A SHA-1 thumbprint of a certificate.
    pub x5t: Option<String>,
    /// A SHA-256 thumbprint of a certificate, `x5t#S256` in the header.
    pub x5t_s256: Option<String>,
    /// The fields that a receiver must understand.
    pub crit: Option<Vec<String>>,
    /// The name of the encryption algorithm.
    pub enc: Option<String>,
    /// The name of the compression.
    pub zip: Option<String>,
    /// The URL to which the token is directed.
    pub url: Option<String>,
    /// A value against replays.
    pub nonce: Option<String>,
    /// Further fields.
    pub extras: HashMap<String, String>,
}

/// A text that may be absent.
pub open spec fn text_view(text: Option<String>) -> Option<Seq<char>> {
    match text {
        Some(t) => Some(t@),
        None => None,
    }
}

/// A list of texts that may be absent.
pub open spec fn list_view(list: Option<Vec<String>>) -> Option<Seq<Seq<char>>> {
    match list {
        Some(l) => Some(l@.map_values(|text: String| text@)),
        None => None,
    }
}

/// Whether a header field is one that the format itself names.
pub open spec fn is_standard_field(name: Seq<char>) -> bool {
    ||| name == "alg"@
    ||| name == "typ"@
    ||| name == "cty"@
    ||| name == "jku"@
    ||| name == "jwk"@
    ||| name == "kid"@
    ||| name == "x5u"@
    ||| name == "x5c"@
    ||| name == "x5t"@
    ||| name == "x5t#S256"@
    ||| name == "crit"@
    ||| name == "enc"@
    ||| name == "zip"@
    ||| name == "url"@
    ||| name == "nonce"@
}

impl JwtHeader {
    /// The text that stands in the header under the name of a standard field.
    pub open spec fn standard_text(self, name: Seq<char>) -> Option<Seq<char>> {
        if name == "alg"@ {
            Some(self.algorithm@)
        } else if name == "typ"@ {
            text_view(self.typ)
        } else if name == "cty"@ {
            text_view(self.cty)
        } else if name == "jku"@ {
            text_view(self.jku)
        } else if name == "kid"@ {
            text_view(self.kid)
        } else if name == "x5u"@ {
            text_view(self.x5u)
        } else if name == "x5t"@ {
            text_view(self.x5t)
        } else if name == "x5t#S256"@ {
            text_view(self.x5t_s256)
        } else if name == "enc"@ {
            text_view(self.enc)
        } else if name == "zip"@ {
            text_view(self.zip)
        } else if name == "url"@ {
            text_view(self.url)
        } else if name == "nonce"@ {
            text_view(self.nonce)
        } else {
            None
        }
    }

    /// The text that stands in the header under the name of a further field.
    pub open spec fn extra_text(self, name: Seq<char>) -> Option<Seq<char>> {
        if exists|key: String| #[trigger] self.extras@.contains_key(key) && key@ == name {
            let key = choose|key: String| #[trigger] self.extras@.contains_key(key) && key@ == name;
            Some(self.extras@[key]@)
        } else {
            None
        }
    }

    /// The text that is read from the header under a name, given that the header can
    /// be read.
    pub open spec fn text(self, name: Seq<char>) -> Option<Seq<char>> {
        if self.standard_text(name) is Some {
            self.standard_text(name)
        } else {
            self.extra_text(name)
        }
    }

    /// The list of texts that is read from the header under a name, given that the
    /// header can be read.
    pub open spec fn list(self, name: Seq<char>) -> Option<Seq<Seq<char>>> {
        if name == "x5c"@ {
            list_view(self.x5c)
        } else if name == "crit"@ {
            list_view(self.crit)
        } else {
            None
        }
    }

    /// Whether the header holds no further field named like a standard one.
    pub open spec fn is_plain(self) -> bool {
        forall|key: String| #[trigger]
            self.extras@.contains_key(key) ==> !is_standard_field(key@)
    }

    /// The header of a token of type `JWT` with this algorithm and nothing else.
    pub fn new(algorithm: &str) -> (header: JwtHeader)
        ensures
            header.algorithm@ == algorithm@,
            text_view(header.typ) == Some("JWT"@),
            header.cty is None,
            header.jku is None,
            header.jwk is None,
            header.kid is None,
            header.x5u is None,
            header.x5c is None,
            header.x5t is None,
            header.x5t_s256 is None,
            header.crit is None,
            header.enc is None,
            header.zip is None,
            header.url is None,
            header.nonce is None,
            header.extras@ == Map::<String, String>::empty(),
            header.is_plain(),
    {
        JwtHeader {
            algorithm: algorithm.to_owned(),
            typ: Some("JWT".to_owned()),
            cty: None,
            jku: None,
            jwk: None,
            kid: None,
            x5u: None,
            x5c: None,
            x5t: None,
            x5t_s256: None,
            crit: None,
            enc: None,
            zip: None,
            url: None,
            nonce: None,
            extras: HashMap::new(),
        }
    }
}

/// Errors of minting and verifying tokens.
#[derive(Debug)]
pub enum JwtError {
    /// The algorithm cannot be used with a shared key, or the claims are not JSON.
    Minting(jsonwebtoken::errors::Error),
    /// The token is malformed, has another signature, or its claims do not hold.
    Verification(jsonwebtoken::errors::Error),
}

// ---------------------------------------------------------------------------
// Names for results of the token library
// ---------------------------------------------------------------------------

/// The JSON text that `serde_json::value::RawValue::from_string` takes from a text:
/// the value without the blanks around it, or `None` when the text is no JSON.
pub uninterp spec fn json_value(text: Seq<char>) -> Option<Seq<char>>;

/// Whether `jsonwebtoken::decode` accepts a token for this audience, with the expiry
/// and the audience required, when its clock shows `now` seconds.
pub uninterp spec fn jwt_accepts(
    token: Seq<char>,
    secret: Seq<u8>,
    algorithm: Seq<char>,
    audience: Seq<char>,
    now: u64,
) -> bool;

/// The expiry time that the validation within `jsonwebtoken::decode` reads from claims,
/// in seconds: the number under `exp`. `None` when there is none, or when the
/// validation cannot read the claims at all.
pub uninterp spec fn jwt_expiry(claims: Seq<u8>) -> Option<u64>;

/// The audiences that the validation within `jsonwebtoken::decode` reads from claims:
/// the text, or the texts of the list, under `aud`. `None` when there is none, or when
/// the validation cannot read the claims at all.
pub uninterp spec fn jwt_audiences(claims: Seq<u8>) -> Option<Set<Seq<char>>>;

/// Whether `jsonwebtoken::decode_header` reads a header from a token.
pub uninterp spec fn jwt_header_decodes(token: Seq<char>) -> bool;

/// The text that `jsonwebtoken::decode_header` reads from a token under a field's name,
/// if there is a text under it.
pub uninterp spec fn jwt_header_text(token: Seq<char>, name: Seq<char>) -> Option<Seq<char>>;

/// The list of texts that `jsonwebtoken::decode_header` reads from a token under a
/// field's name, if there is a list under it.
pub uninterp spec fn jwt_header_list(token: Seq<char>, name: Seq<char>) -> Option<Seq<Seq<char>>>;

/// Whether `jsonwebtoken::decode_header` reads a key from a token.
pub uninterp spec fn jwt_header_has_key(token: Seq<char>) -> bool;

/// What `jsonwebtoken::crypto::sign` gives for a message.
pub uninterp spec fn jwt_signature(
    message: Seq<char>,
    secret: Seq<u8>,
    algorithm: Seq<char>,
) -> Seq<char>;

/// The text that `serde_json` reads into a `Value` under a name in a JSON object, if
/// there is a text under it.
pub uninterp spec fn json_text_member(json: Seq<char>, name: Seq<char>) -> Option<Seq<char>>;

/// Whether claims have an expiry time that has passed no more than a minute ago, and
/// this audience.
pub open spec fn claims_hold(claims: Seq<u8>, audience: Seq<char>, now: u64) -> bool {
    &&& jwt_expiry(claims) matches Some(expiry) && now <= expiry + 60
    &&& jwt_audiences(claims) matches Some(audiences) && audiences.contains(audience)
}

/// The texts of a list.
pub open spec fn texts(list: Seq<&str>) -> Seq<Seq<char>> {
    list.map_values(|text: &str| text@)
}

/// Whether an algorithm signs with a shared key.
pub open spec fn is_shared_key_algorithm(algorithm: Seq<char>) -> bool {
    algorithm == "HS256"@ || algorithm == "HS384"@ || algorithm == "HS512"@
}

/// The part of a token that is signed: the header, a dot and the claims.
pub open spec fn jwt_message(head: Seq<char>, claims: Seq<u8>) -> Seq<char> {
    head + seq!['.'] + b64url(claims)
}

/// A token made of its message and its signature.
pub open spec fn jwt_token(message: Seq<char>, signature: Seq<char>) -> Seq<char> {
    message + seq!['.'] + signature
}

/// Whether a token has these claims between its last two dots.
pub open spec fn has_claims(token: Seq<char>, claims: Seq<u8>) -> bool {
    exists|head: Seq<char>, signature: Seq<char>|
        token == #[trigger] jwt_token(jwt_message(head, claims), signature)
            && !signature.contains('.')
}

/// The bytes of claims that are given as JSON text.
pub open spec fn claims_bytes(text: Seq<char>) -> Seq<u8> {
    vstd::utf8::encode_utf8(json_value(text)->0)
}

/// Whether a token is made of these claims and their signature under this key and
/// algorithm: under whichever key it is read, it is accepted exactly when the algorithm
/// is the one asked for, the header can be read, that key gives the message the same
/// signature, and the claims hold. The clock is past the first minute of 1970.
pub open spec fn carries(
    token: Seq<char>,
    secret: Seq<u8>,
    algorithm: Seq<char>,
    claims: Seq<u8>,
) -> bool {
    exists|head: Seq<char>|
        ({
            let message = #[trigger] jwt_message(head, claims);
            let signature = jwt_signature(message, secret, algorithm);
            &&& token == jwt_token(message, signature)
            &&& !signature.contains('.')
            &&& forall|other: Seq<u8>, asked: Seq<char>, audience: Seq<char>, now: u64|
                now >= 60 ==> #[trigger] jwt_accepts(token, other, asked, audience, now) == (asked
                    == algorithm && jwt_header_decodes(token) && jwt_signature(
                    message,
                    other,
                    algorithm,
                ) == signature && claims_hold(claims, audience, now))
        })
}

/// Whether the fields of a header are what is read from a token.
pub open spec fn has_header(token: Seq<char>, header: JwtHeader) -> bool {
    &&& forall|name: Seq<char>| #[trigger] jwt_header_text(token, name) == header.text(name)
    &&& forall|name: Seq<char>| #[trigger] jwt_header_list(token, name) == header.list(name)
    &&& jwt_header_has_key(token) == (header.jwk is Some)
}

// ---------------------------------------------------------------------------
// Trusted calls into jsonwebtoken
// ---------------------------------------------------------------------------

/// Trusted: `jsonwebtoken::encode`, with a shared key, the header's fields and the
/// claims as JSON text. It succeeds exactly when the algorithm is one for shared keys
/// and the claims are JSON. The token is the encoded header, a dot, the claims in base64,
/// a dot and the signature of what stands before it, and whether `decode` accepts it
/// under any key follows from the signature that the key gives the message and from the
/// claims. Where the header can be read, its fields are those given. A header without a
/// further field named like a standard one can be read; another one may not be, such as
/// one with a field in it twice. The contract is that of the crate's own provider of
/// signatures, which a process may replace. It leaves two things unsaid: which text the
/// encoded header is, since the order of further fields is that of a hash map, and which
/// key is read back from it, since a key is opaque here.
#[verifier::external_body]
pub(crate) fn encode(header: &JwtHeader, claims: &str, secret: &[u8]) -> (token: Result<
    String,
    jsonwebtoken::errors::Error,
>)
    ensures
        token.is_ok() == (is_shared_key_algorithm(header.algorithm@) && json_value(
            claims@,
        ) is Some),
        token matches Ok(t) ==> (exists|head: Seq<char>|
            ({
                let message = #[trigger] jwt_message(head, claims_bytes(claims@));
                let signature = jwt_signature(message, secret@, header.algorithm@);
                &&& t@ == jwt_token(message, signature)
                &&& !signature.contains('.')
                &&& forall|other: Seq<u8>, asked: Seq<char>, audience: Seq<char>, now: u64|
                    now >= 60 ==> #[trigger] jwt_accepts(t@, other, asked, audience, now) == (asked
                        == header.algorithm@ && jwt_header_decodes(t@) && jwt_signature(
                        message,
                        other,
                        header.algorithm@,
                    ) == signature && claims_hold(claims_bytes(claims@), audience, now))
            })),
        token is Ok && header.is_plain() ==> jwt_header_decodes(token->Ok_0@),
        token is Ok && jwt_header_decodes(token->Ok_0@) ==> (forall|name: Seq<char>| #[trigger]
            jwt_header_text(token->Ok_0@, name) == header.text(name)),
        token is Ok && jwt_header_decodes(token->Ok_0@) ==> (forall|name: Seq<char>| #[trigger]
            jwt_header_list(token->Ok_0@, name) == header.list(name)),
        token is Ok && jwt_header_decodes(token->Ok_0@) ==> jwt_header_has_key(token->Ok_0@) == (
        header.jwk is Some),
{
    let h = header.clone();
    let alg = h.algorithm.parse()?;
    let enc = serde_json::from_value(h.enc.into())?;
    let zip = serde_json::from_value(h.zip.into())?;
    let header = jsonwebtoken::Header {
        alg, enc, zip, typ: h.typ, cty: h.cty, jku: h.jku, jwk: h.jwk, kid: h.kid, x5u: h.x5u,
        x5c: h.x5c, x5t: h.x5t, x5t_s256: h.x5t_s256, crit: h.crit, url: h.url, nonce: h.nonce,
        extras: h.extras,
    };
    let claims = serde_json::value::RawValue::from_string(claims.to_owned())?;
    jsonwebtoken::encode(&header, &claims, &jsonwebtoken::EncodingKey::from_secret(secret))
}

/// Trusted: `jsonwebtoken::decode`, with the algorithm by its name, a shared key, the
/// audience and the names of the claims that must be there. Of the claims it is asked
/// only whether they are accepted. It compares the expiry time with the system clock,
/// leaving a minute of leeway, so the contract speaks of some time `now`. An accepted
/// token has claims in base64 between its last two dots, and they hold at that time.
#[verifier::external_body]
pub(crate) fn accept(
    token: &str,
    secret: &[u8],
    algorithm: &str,
    audience: &str,
    required: &[&str],
) -> (accepted: Result<(), jsonwebtoken::errors::Error>)
    requires
        texts(required@) == seq!["exp"@, "aud"@],
    ensures
        exists|now: u64|
            accepted.is_ok() == #[trigger] jwt_accepts(
                token@,
                secret@,
                algorithm@,
                audience@,
                now,
            ) && (accepted is Ok ==> exists|claims: Seq<u8>|
                ({
                    &&& #[trigger] has_claims(token@, claims)
                    &&& jwt_expiry(claims) matches Some(expiry) && now <= expiry + 60
                    &&& jwt_audiences(claims) matches Some(audiences) && audiences.contains(
                        audience@,
                    )
                })),
{
    let mut validation = jsonwebtoken::Validation::new(algorithm.parse()?);
    validation.set_audience(&[audience]);
    validation.set_required_spec_claims(required);
    let key = jsonwebtoken::DecodingKey::from_secret(secret);
    jsonwebtoken::decode::<serde::de::IgnoredAny>(token, &key, &validation)?;
    Ok(())
}

/// Trusted: `serde_json::from_str` into a `Value`, `Value::get` and `Value::as_str`. A
/// text under `aud` is the only audience that the validation of a token with these claims
/// reads, if it reads any.
#[verifier::external_body]
fn text_member(json: &str, name: &str) -> (text: Option<String>)
    ensures
        text_view(text) == json_text_member(json@, name@),
        text matches Some(t) ==> json_value(json@) is Some && (name@ == "aud"@ ==> (jwt_audiences(
            claims_bytes(json@),
        ) matches Some(audiences) ==> audiences == set![t@])),
{
    let value: serde_json::Value = serde_json::from_str(json).ok()?;
    Some(value.get(name)?.as_str()?.to_owned())
}

// ---------------------------------------------------------------------------
// Claims
// ---------------------------------------------------------------------------

/// The audience of claims that are JSON text, if it is a single text.
pub fn audience(claims: &str) -> (text: Option<String>)
    ensures
        text_view(text) == json_text_member(claims@, "aud"@),
        text matches Some(t) ==> json_value(claims@) is Some && (jwt_audiences(
            claims_bytes(claims@),
        ) matches Some(audiences) ==> audiences == set![t@]),
{
    text_member(claims, "aud")
}

/// Two texts that end in a dot and a text without one end in the same text.
proof fn lemma_last_dot(a: Seq<char>, end_a: Seq<char>, b: Seq<char>, end_b: Seq<char>)
    requires
        a + seq!['.'] + end_a == b + seq!['.'] + end_b,
        !end_a.contains('.'),
        !end_b.contains('.'),
    ensures
        a == b,
        end_a == end_b,
{
    let x = a + seq!['.'] + end_a;
    let y = b + seq!['.'] + end_b;
    assert(x.len() == a.len() + 1 + end_a.len() && y.len() == b.len() + 1 + end_b.len());
    assert(x[a.len() as int] == '.' && y[b.len() as int] == '.');
    if a.len() > b.len() {
        assert(y[a.len() as int] == end_b[a.len() - (b.len() + 1)]);
        assert(end_b.contains('.'));
    }
    if a.len() < b.len() {
        assert(x[b.len() as int] == end_a[b.len() - (a.len() + 1)]);
        assert(end_a.contains('.'));
    }
    assert(a =~= x.take(a.len() as int));
    assert(b =~= y.take(a.len() as int));
    assert(end_a =~= x.skip(a.len() as int + 1));
    assert(end_b =~= y.skip(a.len() as int + 1));
}

/// A token has only one sequence of bytes as its claims.
pub proof fn law_claims_unique(token: Seq<char>, claims1: Seq<u8>, claims2: Seq<u8>)
    requires
        has_claims(token, claims1),
        has_claims(token, claims2),
    ensures
        claims1 == claims2,
{
    let (head1, signature1) = choose|head: Seq<char>, signature: Seq<char>|
        token == #[trigger] jwt_token(jwt_message(head, claims1), signature)
            && !signature.contains('.');
    let (head2, signature2) = choose|head: Seq<char>, signature: Seq<char>|
        token == #[trigger] jwt_token(jwt_message(head, claims2), signature)
            && !signature.contains('.');
    lemma_last_dot(
        jwt_message(head1, claims1),
        signature1,
        jwt_message(head2, claims2),
        signature2,
    );
    lemma_b64url_has_no_dot(claims1);
    lemma_b64url_has_no_dot(claims2);
    lemma_last_dot(head1, b64url(claims1), head2, b64url(claims2));
    law_b64url_injective(claims1, claims2);
}

/// The place of the last dot within the first `end` characters, of which one is a dot.
fn last_dot(text: &Vec<char>, end: usize) -> (place: usize)
    requires
        end <= text@.len(),
        text@.take(end as int).contains('.'),
    ensures
        place < end,
        text@[place as int] == '.',
        !text@.subrange(place + 1, end as int).contains('.'),
{
    let ghost k = choose|k: int| 0 <= k < end && text@.take(end as int)[k] == '.';
    let mut place: usize = end - 1;
    while text[place] != '.'
        invariant
            0 <= k <= place < end <= text@.len(),
            text@[k] == '.',
            forall|j: int| place < j < end ==> text@[j] != '.',
        decreases place,
    {
        place = place - 1;
    }
    place
}

/// The characters of a text.
fn chars_of(text: &str) -> (chars: Vec<char>)
    ensures
        chars@ == text@,
{
    let mut chars: Vec<char> = Vec::new();
    for c in it: text.chars()
        invariant
            chars@ == it.seq().take(it.index() as int),
            it.seq() == text@,
    {
        chars.push(c);
    }
    assert(chars@ =~= text@);
    chars
}

/// The place of the last dot in a text that is made of two parts and a dot.
fn split_place(text: &Vec<char>, end: usize, Ghost(head): Ghost<Seq<char>>, Ghost(tail): Ghost<
    Seq<char>,
>) -> (place: usize)
    requires
        end <= text@.len(),
        text@.take(end as int) == head + seq!['.'] + tail,
        !tail.contains('.'),
    ensures
        place < end,
        text@.take(place as int) == head,
        text@.subrange(place + 1, end as int) == tail,
{
    assert(text@.take(end as int)[head.len() as int] == '.');
    let place: usize = last_dot(text, end);
    proof {
        let before = text@.take(place as int);
        let after = text@.subrange(place + 1, end as int);
        assert(text@.take(end as int) =~= before + seq!['.'] + after);
        lemma_last_dot(head, tail, before, after);
    }
    place
}

/// The claims within a token.
pub(crate) fn claims_of(token: &str) -> (claims: Vec<u8>)
    requires
        exists|claims: Seq<u8>| #[trigger] has_claims(token@, claims),
    ensures
        has_claims(token@, claims@),
{
    let text = chars_of(token);
    let ghost bytes = choose|claims: Seq<u8>| #[trigger] has_claims(token@, claims);
    let ghost (head, signature) = choose|head: Seq<char>, signature: Seq<char>|
        token@ == #[trigger] jwt_token(jwt_message(head, bytes), signature)
            && !signature.contains('.');
    assert(text@.take(text@.len() as int) =~= token@);
    let second: usize = split_place(
        &text,
        text.len(),
        Ghost(jwt_message(head, bytes)),
        Ghost(signature),
    );
    proof {
        lemma_b64url_has_no_dot(bytes);
    }
    let first: usize = split_place(&text, second, Ghost(head), Ghost(b64url(bytes)));
    let claims = b64url_decode(
        vstd::slice::slice_subrange(text.as_slice(), first + 1, second),
    );
    proof {
        law_b64url_injective(claims@, bytes);
    }
    claims
}

} // verus!
