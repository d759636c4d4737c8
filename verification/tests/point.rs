use curve25519_dalek::constants::RISTRETTO_BASEPOINT_COMPRESSED;
use curve25519_dalek::ristretto::{CompressedRistretto, RistrettoPoint};
use ristretto_algebra::point::Point;
use ristretto_algebra::scalar::Scalar;
use sha2::{Digest, Sha512};

const IDENTITY: [u8; 32] = [0u8; 32];

const GENERATOR: [u8; 32] = [
    0xe2, 0xf2, 0xae, 0x0a, 0x6a, 0xbc, 0x4e, 0x71, 0xa8, 0x84, 0xa9, 0x61, 0xc5, 0x00, 0x51, 0x5f,
    0x58, 0xe3, 0x0b, 0x6a, 0xa5, 0x82, 0xdd, 0x8d, 0xb6, 0xa6, 0x59, 0x45, 0xe0, 0x8d, 0x2d, 0x76,
];

const TWICE_GENERATOR: [u8; 32] = [
    106, 73, 50, 16, 247, 73, 156, 209, 127, 236, 181, 16, 174, 12, 234, 35, 161, 16, 232, 213,
    185, 1, 248, 172, 173, 211, 9, 92, 115, 163, 185, 25,
];

const THRICE_GENERATOR: [u8; 32] = [
    148, 116, 31, 93, 93, 82, 117, 94, 206, 79, 35, 240, 68, 238, 39, 213, 209, 234, 30, 43, 209,
    150, 180, 98, 22, 107, 22, 21, 42, 157, 2, 89,
];

const ORDER: [u8; 32] = [
    0xed, 0xd3, 0xf5, 0x5c, 0x1a, 0x63, 0x12, 0x58, 0xd6, 0x9c, 0xf7, 0xa2, 0xde, 0xf9, 0xde, 0x14,
    0x00, 0x00, 0x00, 0x00, 0x00, 0x00, 0x00, 0x00, 0x00, 0x00, 0x00, 0x00, 0x00, 0x00, 0x00, 0x10,
];

fn small(n: u8) -> Scalar {
    let mut bytes = [0u8; 32];
    bytes[0] = n;
    Scalar { bytes }
}

fn not_encodings() -> Vec<[u8; 32]> {
    let mut odd = [0u8; 32];
    odd[0] = 1;
    let mut above_field = [0xff; 32];
    above_field[31] = 0x7f;
    let mut high_bit = GENERATOR;
    high_bit[31] |= 0x80;
    vec![odd, [0xff; 32], above_field, high_bit]
}

#[test]
fn generator_constant_is_the_outside_crates() {
    assert_eq!(GENERATOR, RISTRETTO_BASEPOINT_COMPRESSED.to_bytes());
}

#[test]
fn point_new_wraps_the_bytes_unchecked() {
    assert_eq!(Point::new(GENERATOR).bytes, GENERATOR);
    assert_eq!(Point::new([0xff; 32]).bytes, [0xff; 32]);
}

#[test]
fn point_from_bytes_refuses_other_lengths() {
    for n in [0usize, 1, 16, 31, 33, 48, 63, 65, 96, 128] {
        let buffer = vec![0u8; n];
        assert!(Point::from_bytes(&buffer).is_none(), "length {}", n);
    }
}

#[test]
fn point_from_bytes_decodes_encodings() {
    assert_eq!(Point::from_bytes(&IDENTITY), Some(Point::new(IDENTITY)));
    assert_eq!(Point::from_bytes(&GENERATOR), Some(Point::new(GENERATOR)));
    assert_eq!(Point::from_bytes(&TWICE_GENERATOR), Some(Point::new(TWICE_GENERATOR)));
}

#[test]
fn point_from_bytes_refuses_what_is_no_encoding() {
    for bytes in not_encodings() {
        assert!(Point::from_bytes(&bytes).is_none(), "{:?}", bytes);
    }
}

#[test]
fn point_from_bytes_agrees_with_decompression() {
    for seed in 0u8..=255 {
        let candidate = Sha512::digest(&[seed]);
        let mut bytes = [0u8; 32];
        bytes.copy_from_slice(&candidate.as_slice()[..32]);
        let decoded = CompressedRistretto(bytes).decompress();
        assert_eq!(Point::from_bytes(&bytes).is_some(), decoded.is_some());
    }
}

#[test]
fn point_from_bytes_maps_64_bytes_onto_the_group() {
    let mut uniform = [0u8; 64];
    for (i, b) in uniform.iter_mut().enumerate() {
        *b = (i * 7 + 3) as u8;
    }
    let p = Point::from_bytes(&uniform).unwrap();
    let expected = RistrettoPoint::from_uniform_bytes(&uniform).compress().to_bytes();
    assert_eq!(p.bytes, expected);
    assert_ne!(&p.bytes[..], &uniform[..32]);
    assert_eq!(Point::from_bytes(&p.bytes), Some(p));
    assert!(Point::from_bytes(&[0u8; 64]).is_some());
    assert!(Point::from_bytes(&[0xff; 64]).is_some());
}

#[test]
fn point_random_twice_differs() {
    assert_ne!(Point::random(), Point::random());
}

#[test]
fn point_round_trips_through_from_bytes() {
    for _ in 0..16 {
        let p = Point::random();
        assert_eq!(Point::from_bytes(&p.bytes), Some(p));
        let b = Point::base(&Scalar::random()).unwrap();
        assert_eq!(Point::from_bytes(&b.bytes), Some(b));
    }
    for message in [&b""[..], &b"abc"[..], &[7u8; 300][..]] {
        let h = Point::hash(message);
        assert_eq!(Point::from_bytes(&h.bytes), Some(h));
    }
}

#[test]
fn point_round_trip_recompresses_to_the_same_bytes() {
    for _ in 0..16 {
        let p = Point::random();
        let again = CompressedRistretto(p.bytes).decompress().unwrap().compress();
        assert_eq!(again.to_bytes(), p.bytes);
    }
}

#[test]
fn point_hash_is_the_mapped_digest() {
    for message in [&b""[..], &b"abc"[..], &b"hash to the group"[..]] {
        let digest = Sha512::digest(message);
        assert_eq!(Some(Point::hash(message)), Point::from_bytes(digest.as_slice()));
        let expected = RistrettoPoint::hash_from_bytes::<Sha512>(message).compress();
        assert_eq!(Point::hash(message).bytes, expected.to_bytes());
    }
}

#[test]
fn point_hash_is_deterministic() {
    let message = b"the same message, twice";
    assert_eq!(Point::hash(message), Point::hash(message));
}

#[test]
fn point_hash_changes_with_one_bit() {
    let a = Point::hash(b"message 0");
    let b = Point::hash(b"message 1");
    assert_ne!(a, b);
    let differing = a.bytes.iter().zip(b.bytes.iter()).filter(|(x, y)| x != y).count();
    assert!(differing > 16);
}

#[test]
fn point_base_known_values() {
    assert_eq!(Point::base(&small(0)), Some(Point::new(IDENTITY)));
    assert_eq!(Point::base(&small(1)), Some(Point::new(GENERATOR)));
    assert_eq!(Point::base(&small(2)), Some(Point::new(TWICE_GENERATOR)));
    assert_eq!(Point::base(&small(3)), Some(Point::new(THRICE_GENERATOR)));
}

#[test]
fn point_base_refuses_a_non_canonical_scalar() {
    assert!(Point::base(&Scalar { bytes: ORDER }).is_none());
    assert!(Point::base(&Scalar { bytes: [0xff; 32] }).is_none());
}

#[test]
fn point_base_is_multiplication_of_the_generator() {
    let generator = Point::new(GENERATOR);
    for _ in 0..8 {
        let s = Scalar::random();
        assert_eq!(Point::base(&s), s.multiply_point(&generator));
        assert!(Point::base(&s).is_some());
    }
}

#[test]
fn point_add_known_values() {
    let g = Point::new(GENERATOR);
    let identity = Point::new(IDENTITY);
    assert_eq!(g.add(&g), Some(Point::new(TWICE_GENERATOR)));
    assert_eq!(g.add(&Point::new(TWICE_GENERATOR)), Some(Point::new(THRICE_GENERATOR)));
    assert_eq!(g.add(&identity), Some(g));
    assert_eq!(identity.add(&identity), Some(identity));
}

#[test]
fn point_sub_known_values() {
    let g = Point::new(GENERATOR);
    let identity = Point::new(IDENTITY);
    assert_eq!(Point::new(THRICE_GENERATOR).sub(&g), Some(Point::new(TWICE_GENERATOR)));
    assert_eq!(Point::new(TWICE_GENERATOR).sub(&g), Some(g));
    assert_eq!(g.sub(&identity), Some(g));
    let mut top = ORDER;
    top[0] -= 1;
    assert_eq!(identity.sub(&g), Point::base(&Scalar { bytes: top }));
}

#[test]
fn point_add_is_commutative_and_associative() {
    for _ in 0..8 {
        let p = Point::random();
        let q = Point::random();
        let r = Point::random();
        assert_eq!(p.add(&q), q.add(&p));
        let left = p.add(&q).unwrap().add(&r);
        let right = p.add(&q.add(&r).unwrap());
        assert_eq!(left, right);
        assert!(left.is_some());
    }
}

#[test]
fn point_less_itself_is_the_identity() {
    for _ in 0..8 {
        let p = Point::random();
        assert_eq!(p.sub(&p), Some(Point::new(IDENTITY)));
    }
    let g = Point::new(GENERATOR);
    assert_eq!(g.sub(&g).unwrap().bytes, [0u8; 32]);
}

#[test]
fn point_sub_undoes_add() {
    for _ in 0..8 {
        let p = Point::random();
        let q = Point::random();
        assert_eq!(p.add(&q).unwrap().sub(&q), Some(p));
    }
}

#[test]
fn point_add_and_sub_refuse_invalid_operands() {
    let g = Point::new(GENERATOR);
    for bytes in not_encodings() {
        let bad = Point::new(bytes);
        assert!(g.add(&bad).is_none());
        assert!(bad.add(&g).is_none());
        assert!(bad.add(&bad).is_none());
        assert!(g.sub(&bad).is_none());
        assert!(bad.sub(&g).is_none());
        assert!(bad.sub(&bad).is_none());
    }
}
