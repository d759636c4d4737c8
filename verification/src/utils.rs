//! Exact-length conversion from byte slices to fixed-size arrays.
use vstd::prelude::*;

verus! {

/// A buffer of exactly 64 bytes.
#[derive(Debug)]
struct Array64([u8; 64]);

/// A buffer of exactly 32 bytes.
#[derive(Debug)]
struct Array32([u8; 32]);

impl Array64 {
    /// Copies `value` into a 64-byte buffer, or fails when `value` has any
    /// other length.
    fn try_from(value: &[u8]) -> (res: Result<Array64, ()>)
        ensures
            res.is_ok() <==> value@.len() == 64,
            res matches Ok(a) ==> a.0@ == value@,
    {
        if value.len() == 64 {
            let mut ret: [u8; 64] = [0;64];
            for i in 0..64usize
                invariant
                    value@.len() == 64,
                    forall|j: int| 0 <= j < i ==> ret@[j] == value@[j],
            {
                ret[i] = value[i];
            }
            assert(ret@ =~= value@);
            Ok(Array64(ret))
        } else {
            Err(())
        }
    }
}

impl Array32 {
    /// Copies `value` into a 32-byte buffer, or fails when `value` has any
    /// other length.
    fn try_from(value: &[u8]) -> (res: Result<Array32, ()>)
        ensures
            res.is_ok() <==> value@.len() == 32,
            res matches Ok(a) ==> a.0@ == value@,
    {
        if value.len() == 32 {
            let mut ret: [u8; 32] = [0;32];
            for i in 0..32usize
                invariant
                    value@.len() == 32,
                    forall|j: int| 0 <= j < i ==> ret@[j] == value@[j],
            {
                ret[i] = value[i];
            }
            assert(ret@ =~= value@);
            Ok(Array32(ret))
        } else {
            Err(())
        }
    }
}

/// Converts a slice to `[u8; 64]` when it holds exactly 64 bytes, and to
/// `None` otherwise.
pub fn to_array_64(s: &[u8]) -> (res: Option<[u8; 64]>)
    ensures
        res.is_some() <==> s@.len() == 64,
        res matches Some(a) ==> a@ == s@,
{
    match Array64::try_from(s) {
        Ok(a) => Some(a.0),
        Err(_) => None,
    }
}

/// Converts a slice to `[u8; 32]` when it holds exactly 32 bytes, and to
/// `None` otherwise.
pub fn to_array_32(s: &[u8]) -> (res: Option<[u8; 32]>)
    ensures
        res.is_some() <==> s@.len() == 32,
        res matches Some(a) ==> a@ == s@,
{
    match Array32::try_from(s) {
        Ok(a) => Some(a.0),
        Err(_) => None,
    }
}

} // verus!
