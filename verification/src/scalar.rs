//! Elements of the scalar field: the integers modulo the group order.
use crate::arith::{
    group_order, le_value, lemma_group_order_fits, lemma_inverse_mod_order_unique,
    lemma_le_bytes_of_le_value, lemma_le_value_injective, lemma_le_value_of_le_bytes,
    lemma_product_mod_order_associative, lemma_product_mod_order_commutative,
    lemma_scalar_encoding_of_one, product_mod_order, scalar_encoding,
};
use crate::point::Point;
use crate::primitives::{
    is_scalar_encoding, lemma_index_of_encoding, point_decompresses, point_scalar_product,
    ristretto_encoding, scalar_hash, scalar_invert, scalar_is_canonical, scalar_product,
    scalar_random, sha512,
};
use crate::utils::to_array_32;
use vstd::prelude::*;

verus! {

/// An element of the scalar field, held as 32 little-endian bytes.
///
/// The field is public, so a `Scalar` may hold any bytes. It stands for a
/// field element only when it [`is_canonical`](Scalar::is_canonical); every
/// operation tests that of its operands.
#[derive(Clone, Copy, Debug, PartialEq, Eq)]
pub struct Scalar {
    pub bytes: [u8; 32],
}

impl View for Scalar {
    type V = nat;

    /// The number that the bytes write, least significant byte first.
    open spec fn view(&self) -> nat {
        le_value(self.bytes@)
    }
}

impl Scalar {
    /// The bytes are the canonical encoding of a field element: they write a
    /// number below the group order.
    pub open spec fn is_canonical(&self) -> bool {
        is_scalar_encoding(self.bytes@)
    }

    /// The bytes of an optional scalar.
    pub open spec fn encoded(res: Option<Scalar>) -> Option<Seq<u8>> {
        match res {
            Some(s) => Some(s.bytes@),
            None => None,
        }
    }

    /// What [`from_bytes`](Scalar::from_bytes) makes of a buffer: the buffer
    /// itself where it is a canonical encoding, and nothing otherwise.
    pub open spec fn spec_from_bytes(bs: Seq<u8>) -> Option<Seq<u8>> {
        if bs.len() == 32 && is_scalar_encoding(bs) {
            Some(bs)
        } else {
            None
        }
    }

    /// The encoding of the scalar that a message hashes to: its SHA-512
    /// digest as a little-endian number, reduced modulo the group order.
    pub open spec fn spec_hash(message: Seq<u8>) -> Seq<u8> {
        scalar_encoding(le_value(sha512(message)) % group_order())
    }

    /// `self` is what [`inverse`](Scalar::inverse) returns for `a`: for a
    /// nonzero `a` the field element whose product with `a` is one, and zero
    /// for zero, which has no inverse.
    pub open spec fn is_inverse_of(&self, a: Scalar) -> bool {
        &&& self.is_canonical()
        &&& a@ != 0 ==> product_mod_order(a@, self@) == 1
        &&& a@ == 0 ==> self@ == 0
    }

    /// The encoding of the product of two scalars, where both are canonical.
    pub open spec fn spec_multiply(a: Scalar, b: Scalar) -> Option<Seq<u8>> {
        if a.is_canonical() && b.is_canonical() {
            Some(scalar_encoding(product_mod_order(a@, b@)))
        } else {
            None
        }
    }

    /// The encoding of the multiple of a point that a scalar counts, where
    /// the scalar is canonical and the point valid.
    pub open spec fn spec_multiply_point(s: Scalar, p: Point) -> Option<Seq<u8>> {
        if s.is_canonical() && p.is_valid() {
            Some(ristretto_encoding(product_mod_order(s@, p.index())))
        } else {
            None
        }
    }

    /// A scalar drawn at random from the operating system's generator.
    /// Nothing is stated of which scalar comes, only that it is canonical.
    pub fn random() -> (res: Scalar)
        ensures
            res.is_canonical(),
    {
        Scalar { bytes: scalar_random() }
    }

    /// The scalar that a buffer encodes: `Some` exactly when the buffer holds
    /// 32 bytes that write a number below the group order.
    pub fn from_bytes(bs: &[u8]) -> (res: Option<Scalar>)
        ensures
            Scalar::encoded(res) == Scalar::spec_from_bytes(bs@),
            bs@.len() != 32 ==> res is None,
            res matches Some(s) ==> s.is_canonical(),
    {
        match to_array_32(bs) {
            None => None,
            Some(bytes) => {
                if scalar_is_canonical(&bytes) {
                    Some(Scalar { bytes })
                } else {
                    None
                }
            },
        }
    }

    /// The scalar that a message of any length hashes to.
    pub fn hash(bs: &[u8]) -> (res: Scalar)
        ensures
            res.bytes@ == Scalar::spec_hash(bs@),
            res@ == le_value(sha512(bs@)) % group_order(),
            res.is_canonical(),
    {
        let bytes = scalar_hash(bs);
        proof {
            lemma_le_bytes_of_le_value(bytes@);
        }
        Scalar { bytes }
    }

    /// The multiplicative inverse: `Some` exactly when `self` is canonical.
    pub fn inverse(&self) -> (res: Option<Scalar>)
        ensures
            res.is_some() <==> self.is_canonical(),
            res matches Some(r) ==> r.is_inverse_of(*self),
    {
        if scalar_is_canonical(&self.bytes) {
            Some(Scalar { bytes: scalar_invert(&self.bytes) })
        } else {
            None
        }
    }

    /// The product of two scalars: `Some` exactly when both are canonical.
    pub fn multiply(&self, other: &Scalar) -> (res: Option<Scalar>)
        ensures
            Scalar::encoded(res) == Scalar::spec_multiply(*self, *other),
            res matches Some(p) ==> p.is_canonical() && p@ == product_mod_order(self@, other@),
    {
        if scalar_is_canonical(&self.bytes) && scalar_is_canonical(&other.bytes) {
            let bytes = scalar_product(&self.bytes, &other.bytes);
            proof {
                lemma_le_bytes_of_le_value(bytes@);
            }
            Some(Scalar { bytes })
        } else {
            None
        }
    }

    /// The multiple of a point that this scalar counts: `Some` exactly when
    /// the scalar is canonical and the point's bytes encode a group element.
    pub fn multiply_point(&self, point: &Point) -> (res: Option<Point>)
        ensures
            Point::encoded(res) == Scalar::spec_multiply_point(*self, *point),
            res matches Some(m) ==> m.is_valid() && m.index() == product_mod_order(
                self@,
                point.index(),
            ),
    {
        if scalar_is_canonical(&self.bytes) && point_decompresses(&point.bytes) {
            let bytes = point_scalar_product(&self.bytes, &point.bytes);
            proof {
                lemma_index_of_encoding(product_mod_order(self@, point.index()), bytes@);
            }
            Some(Point { bytes })
        } else {
            None
        }
    }

    /// Two scalars that write the same number are the same scalar.
    pub proof fn lemma_equal_by_value(a: Scalar, b: Scalar)
        requires
            a@ == b@,
        ensures
            a == b,
    {
        lemma_le_value_injective(a.bytes@, b.bytes@);
        assert(a.bytes =~= b.bytes);
    }

    /// A scalar is known by its value: its bytes are the encoding of the
    /// number they write, and a canonical scalar has the value that its
    /// encoding was made from.
    pub proof fn lemma_encoding_of_value(s: Scalar)
        ensures
            s.bytes@ == scalar_encoding(s@),
            forall|v: nat| v < group_order() && s.bytes@ == scalar_encoding(v) ==> s@ == v,
    {
        lemma_le_bytes_of_le_value(s.bytes@);
        assert forall|v: nat| v < group_order() && s.bytes@ == scalar_encoding(v) implies s@
            == v by {
            lemma_group_order_fits();
            lemma_le_value_of_le_bytes(v, 32);
        }
    }

    /// Decoding round trip: the bytes of a canonical scalar are accepted by
    /// [`from_bytes`](Scalar::from_bytes), which gives the scalar back.
    pub proof fn lemma_from_bytes_round_trip(s: Scalar)
        requires
            s.is_canonical(),
        ensures
            Scalar::spec_from_bytes(s.bytes@) == Some(s.bytes@),
    {
    }

    /// Hashing is a function of the message: two results for one message are
    /// the same scalar.
    pub proof fn lemma_hash_deterministic(x: Scalar, y: Scalar, message: Seq<u8>)
        requires
            x.bytes@ == Scalar::spec_hash(message),
            y.bytes@ == Scalar::spec_hash(message),
        ensures
            x == y,
    {
        assert(x.bytes =~= y.bytes);
    }

    /// Multiplication of scalars is commutative.
    pub proof fn lemma_multiply_commutative(a: Scalar, b: Scalar)
        ensures
            Scalar::spec_multiply(a, b) == Scalar::spec_multiply(b, a),
    {
        lemma_product_mod_order_commutative(a@, b@);
    }

    /// The product of a nonzero canonical scalar and its inverse is one.
    pub proof fn lemma_multiply_by_inverse(a: Scalar, inv: Scalar)
        requires
            a.is_canonical(),
            a@ != 0,
            inv.is_inverse_of(a),
        ensures
            Scalar::spec_multiply(a, inv) == Some(scalar_encoding(1)),
            Scalar::spec_multiply(inv, a) == Some(scalar_encoding(1)),
            scalar_encoding(1) == seq![1u8].add(Seq::new(31, |i: int| 0u8)),
    {
        lemma_product_mod_order_commutative(a@, inv@);
        lemma_scalar_encoding_of_one();
    }

    /// The contract of [`inverse`](Scalar::inverse) fixes its result: two
    /// scalars that meet it for one canonical `a` are the same scalar.
    pub proof fn lemma_inverse_unique(a: Scalar, x: Scalar, y: Scalar)
        requires
            x.is_inverse_of(a),
            y.is_inverse_of(a),
        ensures
            x == y,
    {
        if a@ != 0 {
            lemma_inverse_mod_order_unique(a@, x@, y@);
        }
        Scalar::lemma_equal_by_value(x, y);
    }

    /// Multiplying a point by two scalars in turn is multiplying it by their
    /// product: `(a * b) * p` is `a * (b * p)`.
    pub proof fn lemma_multiply_point_associative(
        a: Scalar,
        b: Scalar,
        ab: Scalar,
        p: Point,
        bp: Point,
    )
        requires
            Scalar::spec_multiply(a, b) == Some(ab.bytes@),
            Scalar::spec_multiply_point(b, p) == Some(bp.bytes@),
            bp.is_valid(),
        ensures
            Scalar::spec_multiply_point(ab, p) == Scalar::spec_multiply_point(a, bp),
            Scalar::spec_multiply_point(ab, p) is Some,
    {
        Scalar::lemma_encoding_of_value(ab);
        assert(ab@ == product_mod_order(a@, b@));
        lemma_index_of_encoding(product_mod_order(b@, p.index()), bp.bytes@);
        lemma_product_mod_order_associative(a@, b@, p.index());
    }
}

} // verus!
