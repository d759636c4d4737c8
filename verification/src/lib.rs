//! Arithmetic over the Ristretto group of Curve25519 and its scalar field.
//!
//! Two value types, [`scalar::Scalar`] and [`point::Point`], each hold one
//! 32-byte canonical encoding and nothing else. Every operation validates the
//! bytes of its operands before it computes with them and reports a failed
//! validation as `None`; none of them trusts how a value was made.
//!
//! - [`utils`]: exact-length conversion of byte slices to arrays.
//! - [`arith`]: byte strings as numbers, and arithmetic modulo the group
//!   order, with the lemmas that the laws of the two types rest on.
//! - [`primitives`]: the calls into `curve25519-dalek`, with the contracts
//!   that are believed of them.
//! - [`scalar`] and [`point`]: the two types, their operations and the laws
//!   that Verus proves of them.
pub mod arith;
pub mod point;
pub mod primitives;
pub mod scalar;
pub mod utils;
