use ristretto_algebra::utils::{to_array_32, to_array_64};

#[test]
fn to_array_32_accepts_exactly_32_bytes() {
    let bytes: Vec<u8> = (0u8..32).collect();
    let array = to_array_32(&bytes).unwrap();
    assert_eq!(&array[..], &bytes[..]);
    assert!(to_array_32(&bytes[..31]).is_none());
    assert!(to_array_32(&[0u8; 33]).is_none());
    assert!(to_array_32(&[]).is_none());
    assert!(to_array_32(&[0u8; 64]).is_none());
}

#[test]
fn to_array_64_accepts_exactly_64_bytes() {
    let bytes: Vec<u8> = (0u8..64).collect();
    let array = to_array_64(&bytes).unwrap();
    assert_eq!(&array[..], &bytes[..]);
    assert!(to_array_64(&bytes[..63]).is_none());
    assert!(to_array_64(&[0u8; 65]).is_none());
    assert!(to_array_64(&[]).is_none());
    assert!(to_array_64(&[0u8; 32]).is_none());
}
