//! The Ristretto255 group: scalars modulo the group order, group elements, and
//! the operations that the protocol performs on them.
//!
//! A [`Scalar`] is held as its 32 canonical little-endian bytes, and its view is
//! the integer those bytes denote. A [`RistrettoPoint`] is held as its 32-byte
//! canonical encoding, which is also its view. The arithmetic itself is done by
//! `curve25519-dalek`; the functions of this module marked as trusted say what
//! is taken from it.
use vstd::prelude::*;

verus! {

// ---------------------------------------------------------------------------
// The integers modulo the group order
// ---------------------------------------------------------------------------

/// The order of the Ristretto255 group, a prime:
/// 2^252 + 27742317777372353535851937790883648493.
#[verifier::opaque]
pub open spec fn group_order() -> nat {
    0x1000000000000000000000000000000014def9dea2f79cd65812631a5cf5d3ednat
}

/// The integer that a little-endian byte string denotes.
pub open spec fn le_value(bytes: Seq<u8>) -> nat
    decreases bytes.len(),
{
    if bytes.len() == 0 {
        0
    } else {
        bytes[0] as nat + 256 * le_value(bytes.drop_first())
    }
}

/// The multiplicative inverse modulo the group order, with zero sent to zero.
pub open spec fn scalar_inverse(s: nat) -> nat {
    if s == 0 {
        0
    } else {
        choose|t: nat| t < group_order() && #[trigger] (s * t) % group_order() == 1
    }
}

/// Whether `s` times its inverse is one. This is so of every scalar but zero.
pub open spec fn is_invertible(s: nat) -> bool {
    (s * scalar_inverse(s)) % group_order() == 1
}

// ---------------------------------------------------------------------------
// Names for results of the group library
// ---------------------------------------------------------------------------

/// Whether 32 bytes are the canonical encoding of a group element: whether
/// `CompressedRistretto::decompress` returns a point for them.
pub uninterp spec fn ristretto_decodes(encoding: Seq<u8>) -> bool;

/// The encoding of `k` times the group element that `encoding` stands for.
pub uninterp spec fn ristretto_mul(encoding: Seq<u8>, k: nat) -> Seq<u8>;

/// The encoding of the group element to which
/// `RistrettoPoint::from_uniform_bytes` maps 64 bytes.
pub uninterp spec fn ristretto_from_uniform(bytes: Seq<u8>) -> Seq<u8>;

/// The encoding of the neutral element.
pub open spec fn ristretto_identity() -> Seq<u8> {
    Seq::new(32, |i: int| 0u8)
}

/// The encoding of the base point.
pub open spec fn ristretto_basepoint() -> Seq<u8> {
    seq![
        0xe2u8, 0xf2u8, 0xaeu8, 0x0au8, 0x6au8, 0xbcu8, 0x4eu8, 0x71u8,
        0xa8u8, 0x84u8, 0xa9u8, 0x61u8, 0xc5u8, 0x00u8, 0x51u8, 0x5fu8,
        0x58u8, 0xe3u8, 0x0bu8, 0x6au8, 0xa5u8, 0x82u8, 0xddu8, 0x8du8,
        0xb6u8, 0xa6u8, 0x59u8, 0x45u8, 0xe0u8, 0x8du8, 0x2du8, 0x76u8,
    ]
}

/// What it is to be an element of a group of prime order [`group_order`],
/// written with encodings: multiplying by one changes nothing, multiplying by zero
/// gives the neutral element, multiplying twice is multiplying by the product, every
/// multiple is an element, different scalars give different multiples of an element
/// other than the neutral one, and every such element generates this one.
#[verifier::opaque]
pub open spec fn is_group_element(p: Seq<u8>) -> bool {
    &&& p.len() == 32
    &&& ristretto_decodes(p)
    &&& ristretto_mul(p, 1) == p
    &&& ristretto_mul(p, 0) == ristretto_identity()
    &&& ristretto_decodes(ristretto_identity())
    &&& forall|a: nat|
        a < group_order() ==> (#[trigger] ristretto_mul(p, a)).len() == 32 && ristretto_decodes(
            ristretto_mul(p, a),
        )
    &&& forall|a: nat, b: nat|
        a < group_order() && b < group_order() ==> #[trigger] multiplies(p, a, b)
    &&& p != ristretto_identity() ==> forall|a: nat, b: nat|
        a < group_order() && b < group_order() ==> #[trigger] separates(p, a, b)
    &&& forall|q: Seq<u8>|
        q.len() == 32 && ristretto_decodes(q) && q != ristretto_identity()
            ==> #[trigger] generates(q, p)
}

/// Whether multiplying `p` by `a` and then by `b` is multiplying it by their
/// product.
#[verifier::opaque]
pub open spec fn multiplies(p: Seq<u8>, a: nat, b: nat) -> bool {
    ristretto_mul(ristretto_mul(p, a), b) == ristretto_mul(p, (a * b) % group_order())
}

/// Whether two multiples of `p` are equal only for equal scalars.
#[verifier::opaque]
pub open spec fn separates(p: Seq<u8>, a: nat, b: nat) -> bool {
    ristretto_mul(p, a) == ristretto_mul(p, b) ==> a == b
}

/// Whether `p` is a multiple of `q`.
#[verifier::opaque]
pub open spec fn generates(q: Seq<u8>, p: Seq<u8>) -> bool {
    exists|t: nat| t < group_order() && p == #[trigger] ristretto_mul(q, t)
}

/// A private scalar and the public element that belongs to it: the element is
/// `sk` times the base point, and so are its multiples.
#[verifier::opaque]
pub open spec fn is_key_pair(sk: nat, pk: Seq<u8>) -> bool {
    &&& sk < group_order()
    &&& pk == ristretto_mul(ristretto_basepoint(), sk)
    &&& is_group_element(pk)
    &&& forall|k: nat|
        k < group_order() ==> #[trigger] ristretto_mul(pk, k) == ristretto_mul(
            ristretto_basepoint(),
            (sk * k) % group_order(),
        )
}

// ---------------------------------------------------------------------------
// Trusted calls into curve25519-dalek
// ---------------------------------------------------------------------------

/// Trusted: `Scalar::from_bytes_mod_order_wide`, on bytes. It reduces a 512-bit
/// little-endian integer modulo the group order.
#[verifier::external_body]
fn reduce_wide(bytes: &[u8; 64]) -> (reduced: [u8; 32])
    ensures
        le_value(reduced@) == le_value(bytes@) % group_order(),
{
    curve25519_dalek::Scalar::from_bytes_mod_order_wide(bytes).to_bytes()
}

/// Trusted: `Scalar::invert`, on canonical bytes. It computes the inverse of a
/// nonzero scalar modulo the group order by raising it to a fixed power, and so
/// sends zero to zero.
#[verifier::external_body]
fn invert_bytes(scalar: &[u8; 32]) -> (inverse: [u8; 32])
    requires
        le_value(scalar@) < group_order(),
    ensures
        le_value(inverse@) < group_order(),
        le_value(scalar@) == 0 ==> le_value(inverse@) == 0,
        le_value(scalar@) != 0 ==> (le_value(scalar@) * le_value(inverse@)) % group_order() == 1,
{
    curve25519_dalek::Scalar::from_bytes_mod_order(*scalar).invert().to_bytes()
}

/// Trusted: `CompressedRistretto::decompress`, asked only whether it succeeds.
/// It does so exactly on the canonical encodings of elements of the prime-order
/// group.
#[verifier::external_body]
fn decodes(encoding: &[u8; 32]) -> (valid: bool)
    ensures
        valid == ristretto_decodes(encoding@),
        valid ==> is_group_element(encoding@),
{
    curve25519_dalek::ristretto::CompressedRistretto(*encoding).decompress().is_some()
}

/// Trusted: scalar multiplication of a `RistrettoPoint`, between encodings. The
/// product is an element of the group again.
#[verifier::external_body]
fn mul_bytes(encoding: &[u8; 32], scalar: &[u8; 32]) -> (product: [u8; 32])
    requires
        ristretto_decodes(encoding@),
        le_value(scalar@) < group_order(),
    ensures
        product@ == ristretto_mul(encoding@, le_value(scalar@)),
        is_group_element(product@),
{
    let point = curve25519_dalek::ristretto::CompressedRistretto(*encoding).decompress().unwrap();
    let scalar = curve25519_dalek::Scalar::from_bytes_mod_order(*scalar);
    (point * scalar).compress().to_bytes()
}

/// Trusted: `RistrettoPoint::mul_base`, on canonical bytes. It multiplies the
/// base point by the scalar; multiples of the result are multiples of the base
/// point by the product.
#[verifier::external_body]
fn mul_base_bytes(scalar: &[u8; 32]) -> (product: [u8; 32])
    requires
        le_value(scalar@) < group_order(),
    ensures
        product@ == ristretto_mul(ristretto_basepoint(), le_value(scalar@)),
        is_key_pair(le_value(scalar@), product@),
{
    let scalar = curve25519_dalek::Scalar::from_bytes_mod_order(*scalar);
    curve25519_dalek::RistrettoPoint::mul_base(&scalar).compress().to_bytes()
}

/// Trusted: `RistrettoPoint::from_uniform_bytes`, encoded. It maps 64 bytes to an
/// element of the group.
#[verifier::external_body]
fn from_uniform(bytes: &[u8; 64]) -> (encoding: [u8; 32])
    ensures
        encoding@ == ristretto_from_uniform(bytes@),
        is_group_element(encoding@),
{
    curve25519_dalek::RistrettoPoint::from_uniform_bytes(bytes).compress().to_bytes()
}

// ---------------------------------------------------------------------------
// Scalars
// ---------------------------------------------------------------------------

/// An integer modulo the group order.
#[derive(Clone, Copy)]
pub struct Scalar {
    bytes: [u8; 32],
}

impl View for Scalar {
    type V = nat;

    closed spec fn view(&self) -> nat {
        le_value(self.bytes@)
    }
}

impl Scalar {
    #[verifier::type_invariant]
    spec fn canonical(self) -> bool {
        le_value(self.bytes@) < group_order()
    }

    /// Reduces a 512-bit little-endian integer modulo the group order.
    pub fn from_bytes_mod_order_wide(bytes: &[u8; 64]) -> (scalar: Scalar)
        ensures
            scalar@ == le_value(bytes@) % group_order(),
            scalar@ < group_order(),
    {
        proof {
            lemma_group_order_bound();
        }
        Scalar { bytes: reduce_wide(bytes) }
    }

    /// The canonical little-endian bytes of this scalar.
    pub fn to_bytes(&self) -> (bytes: [u8; 32])
        ensures
            le_value(bytes@) == self@,
            self@ < group_order(),
    {
        proof {
            use_type_invariant(self);
        }
        self.bytes
    }

    /// The multiplicative inverse of this scalar; the inverse of zero is zero.
    pub fn invert(&self) -> (inverse: Scalar)
        ensures
            inverse@ == scalar_inverse(self@),
            inverse@ < group_order(),
            self@ != 0 ==> is_invertible(self@),
    {
        proof {
            use_type_invariant(self);
        }
        let bytes = invert_bytes(&self.bytes);
        proof {
            if self@ != 0 {
                lemma_inverse_unique(self@, le_value(bytes@));
            }
        }
        Scalar { bytes }
    }
}

// ---------------------------------------------------------------------------
// Group elements
// ---------------------------------------------------------------------------

/// An element of the Ristretto255 group.
#[derive(Clone, Copy)]
pub struct RistrettoPoint {
    encoding: [u8; 32],
}

impl View for RistrettoPoint {
    type V = Seq<u8>;

    closed spec fn view(&self) -> Seq<u8> {
        self.encoding@
    }
}

impl RistrettoPoint {
    #[verifier::type_invariant]
    spec fn valid(self) -> bool {
        is_group_element(self.encoding@)
    }

    /// Decodes 32 bytes; `None` when they are not the canonical encoding of an
    /// element.
    pub fn from_encoding(encoding: &[u8; 32]) -> (point: Option<RistrettoPoint>)
        ensures
            point is Some <==> ristretto_decodes(encoding@),
            point matches Some(p) ==> p@ == encoding@ && is_group_element(p@),
    {
        if decodes(encoding) {
            Some(RistrettoPoint { encoding: *encoding })
        } else {
            None
        }
    }

    /// The canonical 32-byte encoding of this element.
    pub fn compress(&self) -> (encoding: [u8; 32])
        ensures
            encoding@ == self@,
            is_group_element(self@),
    {
        proof {
            use_type_invariant(self);
        }
        self.encoding
    }

    /// Maps 64 bytes to an element.
    pub fn from_uniform_bytes(bytes: &[u8; 64]) -> (point: RistrettoPoint)
        ensures
            point@ == ristretto_from_uniform(bytes@),
            is_group_element(point@),
    {
        RistrettoPoint { encoding: from_uniform(bytes) }
    }

    /// The base point times `scalar`.
    pub fn mul_base(scalar: &Scalar) -> (point: RistrettoPoint)
        ensures
            point@ == ristretto_mul(ristretto_basepoint(), scalar@),
            is_key_pair(scalar@, point@),
    {
        proof {
            use_type_invariant(scalar);
        }
        let encoding = mul_base_bytes(&scalar.bytes);
        assert(is_group_element(encoding@)) by {
            reveal(is_key_pair);
        }
        RistrettoPoint { encoding }
    }

    /// This element times `scalar`.
    pub fn mul(&self, scalar: &Scalar) -> (product: RistrettoPoint)
        ensures
            product@ == ristretto_mul(self@, scalar@),
            is_group_element(product@),
    {
        proof {
            use_type_invariant(self);
            use_type_invariant(scalar);
            reveal(is_group_element);
        }
        RistrettoPoint { encoding: mul_bytes(&self.encoding, &scalar.bytes) }
    }
}

// ---------------------------------------------------------------------------
// Modular arithmetic
// ---------------------------------------------------------------------------

/// The group has more than one element.
pub(crate) proof fn lemma_group_order_bound()
    ensures
        group_order() > 1,
{
    reveal(group_order);
}

/// Inverses modulo the group order are unique.
proof fn lemma_inverse_unique(s: nat, t: nat)
    requires
        s != 0,
        t < group_order(),
        (s * t) % group_order() == 1,
    ensures
        scalar_inverse(s) == t,
{
    lemma_group_order_bound();
    let l = group_order();
    let u = choose|u: nat| u < l && #[trigger] (s * u) % l == 1;
    assert(u < l && (s * u) % l == 1);
    // t = t (s u) = (s t) u = u, modulo l
    assert(((s * t) * u) % l == u) by {
        vstd::arithmetic::div_mod::lemma_mul_mod_noop_left((s * t) as int, u as int, l as int);
        vstd::arithmetic::div_mod::lemma_small_mod(u, l);
        assert(1 * u == u);
    }
    assert(((s * u) * t) % l == t) by {
        vstd::arithmetic::div_mod::lemma_mul_mod_noop_left((s * u) as int, t as int, l as int);
        vstd::arithmetic::div_mod::lemma_small_mod(t, l);
        assert(1 * t == t);
    }
    assert((s * t) * u == (s * u) * t) by (nonlinear_arith);
}

} // verus!
