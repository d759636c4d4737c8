//! Elements of the Ristretto group.
use crate::arith::{
    difference_mod_order, lemma_difference_mod_order_of_sum, lemma_difference_mod_order_self,
    lemma_product_mod_order_one, lemma_sum_mod_order_associative, lemma_sum_mod_order_zero,
    sum_mod_order,
};
use crate::primitives::{
    generator_encoding, identity_encoding, is_point_encoding, lemma_index_of_encoding,
    point_base, point_decompresses, point_difference, point_from_uniform, point_hash, point_index,
    point_random, point_sum, ristretto_encoding, ristretto_from_uniform, scalar_is_canonical,
    sha512,
};
use crate::scalar::Scalar;
use crate::utils::{to_array_32, to_array_64};
use vstd::prelude::*;

verus! {

/// An element of the group, held as its 32-byte compressed encoding.
///
/// The field is public and [`new`](Point::new) checks nothing, so a `Point`
/// may hold any bytes. It stands for a group element only when it
/// [`is_valid`](Point::is_valid); every operation tests that of its operands.
#[derive(Clone, Copy, Debug, PartialEq, Eq)]
pub struct Point {
    pub bytes: [u8; 32],
}

impl Point {
    /// The bytes are the canonical encoding of a group element.
    pub open spec fn is_valid(&self) -> bool {
        is_point_encoding(self.bytes@)
    }

    /// Which multiple of the generator a valid point is. The group has prime
    /// order, so each element is one multiple below the order: the identity
    /// has index 0 and the generator index 1.
    pub open spec fn index(&self) -> nat {
        point_index(self.bytes@)
    }

    /// The bytes of an optional point.
    pub open spec fn encoded(res: Option<Point>) -> Option<Seq<u8>> {
        match res {
            Some(p) => Some(p.bytes@),
            None => None,
        }
    }

    /// What [`from_bytes`](Point::from_bytes) makes of a buffer: of 64 bytes
    /// the element that the uniform map sends them to, of 32 bytes that
    /// encode an element those bytes, and nothing otherwise.
    pub open spec fn spec_from_bytes(bs: Seq<u8>) -> Option<Seq<u8>> {
        if bs.len() == 64 {
            Some(ristretto_from_uniform(bs))
        } else if bs.len() == 32 && is_point_encoding(bs) {
            Some(bs)
        } else {
            None
        }
    }

    /// The encoding of the element that a message hashes to: the uniform map
    /// applied to its SHA-512 digest.
    pub open spec fn spec_hash(message: Seq<u8>) -> Seq<u8> {
        ristretto_from_uniform(sha512(message))
    }

    /// The encoding of the multiple of the generator that a canonical scalar
    /// counts.
    pub open spec fn spec_base(s: Scalar) -> Option<Seq<u8>> {
        if s.is_canonical() {
            Some(ristretto_encoding(s@))
        } else {
            None
        }
    }

    /// The encoding of the sum of two valid points.
    pub open spec fn spec_add(p: Point, q: Point) -> Option<Seq<u8>> {
        if p.is_valid() && q.is_valid() {
            Some(ristretto_encoding(sum_mod_order(p.index(), q.index())))
        } else {
            None
        }
    }

    /// The encoding of the difference of two valid points.
    pub open spec fn spec_sub(p: Point, q: Point) -> Option<Seq<u8>> {
        if p.is_valid() && q.is_valid() {
            Some(ristretto_encoding(difference_mod_order(p.index(), q.index())))
        } else {
            None
        }
    }

    /// Wraps 32 bytes without looking at them. The caller answers for their
    /// being an encoding; untrusted bytes go through
    /// [`from_bytes`](Point::from_bytes).
    pub fn new(bytes: [u8; 32]) -> (res: Point)
        ensures
            res.bytes == bytes,
    {
        Point { bytes }
    }

    /// A group element drawn at random from the operating system's
    /// generator. Nothing is stated of which element comes, only that its
    /// bytes encode one.
    pub fn random() -> (res: Point)
        ensures
            res.is_valid(),
    {
        Point { bytes: point_random() }
    }

    /// The point that a buffer gives: 64 bytes are mapped onto the group,
    /// 32 bytes are decoded and accepted only as the canonical encoding of a
    /// group element, and any other length is refused.
    pub fn from_bytes(bs: &[u8]) -> (res: Option<Point>)
        ensures
            Point::encoded(res) == Point::spec_from_bytes(bs@),
            bs@.len() != 32 && bs@.len() != 64 ==> res is None,
            res matches Some(p) ==> p.is_valid(),
    {
        if bs.len() == 64 {
            match to_array_64(bs) {
                Some(uniform) => Some(Point { bytes: point_from_uniform(&uniform) }),
                None => None,
            }
        } else if bs.len() == 32 {
            match to_array_32(bs) {
                Some(bytes) => {
                    if point_decompresses(&bytes) {
                        Some(Point { bytes })
                    } else {
                        None
                    }
                },
                None => None,
            }
        } else {
            None
        }
    }

    /// The point that a message of any length hashes to.
    pub fn hash(bs: &[u8]) -> (res: Point)
        ensures
            res.bytes@ == Point::spec_hash(bs@),
            res.is_valid(),
    {
        Point { bytes: point_hash(bs) }
    }

    /// The multiple of the generator that a scalar counts: `Some` exactly
    /// when the scalar is canonical.
    pub fn base(s: &Scalar) -> (res: Option<Point>)
        ensures
            Point::encoded(res) == Point::spec_base(*s),
            res matches Some(p) ==> p.is_valid() && p.index() == s@,
    {
        if scalar_is_canonical(&s.bytes) {
            let bytes = point_base(&s.bytes);
            proof {
                lemma_index_of_encoding(s@, bytes@);
            }
            Some(Point { bytes })
        } else {
            None
        }
    }

    /// The group's sum of two points: `Some` exactly when both are valid.
    pub fn add(&self, other: &Point) -> (res: Option<Point>)
        ensures
            Point::encoded(res) == Point::spec_add(*self, *other),
            res matches Some(s) ==> s.is_valid() && s.index() == sum_mod_order(
                self.index(),
                other.index(),
            ),
    {
        if point_decompresses(&self.bytes) && point_decompresses(&other.bytes) {
            let bytes = point_sum(&self.bytes, &other.bytes);
            proof {
                lemma_index_of_encoding(sum_mod_order(self.index(), other.index()), bytes@);
            }
            Some(Point { bytes })
        } else {
            None
        }
    }

    /// The group's difference of two points: `Some` exactly when both are
    /// valid.
    pub fn sub(&self, other: &Point) -> (res: Option<Point>)
        ensures
            Point::encoded(res) == Point::spec_sub(*self, *other),
            res matches Some(d) ==> d.is_valid() && d.index() == difference_mod_order(
                self.index(),
                other.index(),
            ),
    {
        if point_decompresses(&self.bytes) && point_decompresses(&other.bytes) {
            let bytes = point_difference(&self.bytes, &other.bytes);
            proof {
                lemma_index_of_encoding(
                    difference_mod_order(self.index(), other.index()),
                    bytes@,
                );
            }
            Some(Point { bytes })
        } else {
            None
        }
    }

    /// Two valid points with the same index are the same point.
    pub proof fn lemma_equal_by_index(p: Point, q: Point)
        requires
            p.is_valid(),
            q.is_valid(),
            p.index() == q.index(),
        ensures
            p == q,
    {
        assert(p.bytes =~= q.bytes);
    }

    /// Decoding round trip: the bytes of a valid point are accepted by
    /// [`from_bytes`](Point::from_bytes), which gives the point back.
    pub proof fn lemma_from_bytes_round_trip(p: Point)
        requires
            p.is_valid(),
        ensures
            Point::spec_from_bytes(p.bytes@) == Some(p.bytes@),
    {
    }

    /// Only encodings of group elements are decoded: whatever 32 bytes
    /// [`from_bytes`](Point::from_bytes) accepts are one multiple of the
    /// generator, so an element of the prime-order group.
    pub proof fn lemma_from_bytes_rejects_other_bytes(bs: Seq<u8>)
        requires
            bs.len() == 32,
        ensures
            Point::spec_from_bytes(bs) is Some <==> is_point_encoding(bs),
    {
    }

    /// Hashing is a function of the message: two results for one message are
    /// the same point.
    pub proof fn lemma_hash_deterministic(x: Point, y: Point, message: Seq<u8>)
        requires
            x.bytes@ == Point::spec_hash(message),
            y.bytes@ == Point::spec_hash(message),
        ensures
            x == y,
    {
        assert(x.bytes =~= y.bytes);
    }

    /// Addition of points is commutative.
    pub proof fn lemma_add_commutative(p: Point, q: Point)
        ensures
            Point::spec_add(p, q) == Point::spec_add(q, p),
    {
    }

    /// Addition of points is associative: `(p + q) + r` is `p + (q + r)`.
    pub proof fn lemma_add_associative(p: Point, q: Point, r: Point, pq: Point, qr: Point)
        requires
            r.is_valid(),
            p.is_valid(),
            Point::spec_add(p, q) == Some(pq.bytes@),
            Point::spec_add(q, r) == Some(qr.bytes@),
            pq.is_valid(),
            qr.is_valid(),
        ensures
            Point::spec_add(pq, r) == Point::spec_add(p, qr),
            Point::spec_add(pq, r) is Some,
    {
        lemma_index_of_encoding(sum_mod_order(p.index(), q.index()), pq.bytes@);
        lemma_index_of_encoding(sum_mod_order(q.index(), r.index()), qr.bytes@);
        lemma_sum_mod_order_associative(p.index(), q.index(), r.index());
    }

    /// Adding the identity to a valid point decodes the point and encodes it
    /// again, and gives the point back.
    pub proof fn lemma_add_identity(p: Point, e: Point)
        requires
            p.is_valid(),
            e.is_valid(),
            e.bytes@ == identity_encoding(),
        ensures
            Point::spec_add(p, e) == Some(p.bytes@),
            Point::spec_add(e, p) == Some(p.bytes@),
    {
        lemma_sum_mod_order_zero(p.index());
    }

    /// Subtraction undoes addition: `(p + q) - q` is `p`.
    pub proof fn lemma_sub_undoes_add(p: Point, q: Point, pq: Point)
        requires
            Point::spec_add(p, q) == Some(pq.bytes@),
            pq.is_valid(),
        ensures
            Point::spec_sub(pq, q) == Some(p.bytes@),
    {
        lemma_index_of_encoding(sum_mod_order(p.index(), q.index()), pq.bytes@);
        lemma_difference_mod_order_of_sum(p.index(), q.index());
    }

    /// A valid point less itself is the identity, whose encoding is 32 zero
    /// bytes.
    pub proof fn lemma_sub_self(p: Point, d: Point)
        requires
            p.is_valid(),
            d.is_valid(),
            Point::spec_sub(p, p) == Some(d.bytes@),
        ensures
            d.index() == 0,
            d.bytes@ == identity_encoding(),
    {
        lemma_difference_mod_order_self(p.index());
        lemma_index_of_encoding(0, d.bytes@);
    }

    /// [`base`](Point::base) is multiplication of the generator: where the
    /// bytes of `g` are the generator's encoding, `base(s)` is `s * g`.
    pub proof fn lemma_base_multiplies_generator(s: Scalar, g: Point)
        requires
            g.is_valid(),
            g.bytes@ == generator_encoding(),
        ensures
            g.index() == 1,
            Point::spec_base(s) == Scalar::spec_multiply_point(s, g),
    {
        if s.is_canonical() {
            lemma_product_mod_order_one(s@);
        }
    }

    /// Hashing a message is mapping its digest: where the digest holds 64
    /// bytes, [`hash`](Point::hash) of the message is
    /// [`from_bytes`](Point::from_bytes) of the digest.
    pub proof fn lemma_hash_maps_digest(message: Seq<u8>)
        ensures
            sha512(message).len() == 64 ==> Point::spec_from_bytes(sha512(message)) == Some(
                Point::spec_hash(message),
            ),
    {
    }
}

} // verus!
