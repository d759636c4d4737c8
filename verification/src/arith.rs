//! Little-endian byte strings as natural numbers, and the order of the group.
use vstd::arithmetic::div_mod::{
    lemma_add_mod_noop, lemma_mul_mod_noop_left, lemma_mul_mod_noop_right, lemma_small_mod,
    lemma_sub_mod_noop,
};
use vstd::arithmetic::mul::lemma_mul_is_associative;
use vstd::prelude::*;

verus! {

/// The order of the Ristretto group and modulus of its scalar field:
/// 2^252 + 27742317777372353535851937790883648493, a prime.
pub open spec fn group_order() -> nat {
    7237005577332262213973186563042994240857116359379907606001950938285454250989nat
}

/// The sum of two numbers modulo the group order.
pub open spec fn sum_mod_order(i: nat, j: nat) -> nat {
    (i + j) % group_order()
}

/// The difference of two numbers modulo the group order, which lies below
/// the order also where `j` exceeds `i`.
pub open spec fn difference_mod_order(i: nat, j: nat) -> nat {
    ((i - j) % (group_order() as int)) as nat
}

/// The product of two numbers modulo the group order.
pub open spec fn product_mod_order(i: nat, j: nat) -> nat {
    (i * j) % group_order()
}

/// The number that `bytes` writes in base 256, least significant digit first.
pub open spec fn le_value(bytes: Seq<u8>) -> nat
    decreases bytes.len(),
{
    if bytes.len() == 0 {
        0
    } else {
        bytes[0] as nat + 256 * le_value(bytes.drop_first())
    }
}

/// The `len` least significant base-256 digits of `v`, least significant
/// first.
pub open spec fn le_bytes(v: nat, len: nat) -> Seq<u8>
    decreases len,
{
    if len == 0 {
        Seq::empty()
    } else {
        seq![(v % 256) as u8] + le_bytes(v / 256, (len - 1) as nat)
    }
}

/// 256 to the power `len`: the number of byte strings of length `len`.
pub open spec fn byte_limit(len: nat) -> nat
    decreases len,
{
    if len == 0 {
        1
    } else {
        256 * byte_limit((len - 1) as nat)
    }
}

/// The canonical 32-byte encoding of a scalar value.
pub open spec fn scalar_encoding(v: nat) -> Seq<u8> {
    le_bytes(v, 32)
}

/// A byte string of length `len` writes a number below 256^`len`.
pub proof fn lemma_le_value_bound(bytes: Seq<u8>)
    ensures
        le_value(bytes) < byte_limit(bytes.len()),
    decreases bytes.len(),
{
    if bytes.len() != 0 {
        lemma_le_value_bound(bytes.drop_first());
    }
}

/// Two byte strings of one length that write the same number are equal.
pub proof fn lemma_le_value_injective(a: Seq<u8>, b: Seq<u8>)
    requires
        a.len() == b.len(),
        le_value(a) == le_value(b),
    ensures
        a == b,
    decreases a.len(),
{
    if a.len() == 0 {
        assert(a =~= b);
    } else {
        let ta = a.drop_first();
        let tb = b.drop_first();
        assert(a[0] as nat + 256 * le_value(ta) == b[0] as nat + 256 * le_value(tb));
        lemma_le_value_injective(ta, tb);
        assert(a =~= seq![a[0]] + ta);
        assert(b =~= seq![b[0]] + tb);
    }
}

/// `le_bytes` yields exactly `len` digits.
pub proof fn lemma_le_bytes_len(v: nat, len: nat)
    ensures
        le_bytes(v, len).len() == len,
    decreases len,
{
    if len != 0 {
        lemma_le_bytes_len(v / 256, (len - 1) as nat);
    }
}

/// Writing a number below 256^`len` in `len` digits and reading it back
/// gives the number.
pub proof fn lemma_le_value_of_le_bytes(v: nat, len: nat)
    requires
        v < byte_limit(len),
    ensures
        le_value(le_bytes(v, len)) == v,
    decreases len,
{
    if len != 0 {
        let rest = le_bytes(v / 256, (len - 1) as nat);
        lemma_le_value_of_le_bytes(v / 256, (len - 1) as nat);
        assert(le_bytes(v, len).drop_first() =~= rest);
    }
}

/// Reading a byte string and writing the number in as many digits gives the
/// byte string.
pub proof fn lemma_le_bytes_of_le_value(bytes: Seq<u8>)
    ensures
        le_bytes(le_value(bytes), bytes.len()) == bytes,
{
    let v = le_value(bytes);
    lemma_le_value_bound(bytes);
    lemma_le_bytes_len(v, bytes.len());
    lemma_le_value_of_le_bytes(v, bytes.len());
    lemma_le_value_injective(le_bytes(v, bytes.len()), bytes);
}

/// The group order fits in 32 bytes: it lies below 2^253.
pub proof fn lemma_group_order_fits()
    ensures
        group_order() < byte_limit(32),
{
    reveal_with_fuel(byte_limit, 33);
}

/// The scalar one is encoded by a one followed by 31 zero bytes.
pub proof fn lemma_scalar_encoding_of_one()
    ensures
        scalar_encoding(1) == seq![1u8].add(Seq::new(31, |i: int| 0u8)),
{
    reveal_with_fuel(le_bytes, 33);
    assert(scalar_encoding(1) =~= seq![1u8].add(Seq::new(31, |i: int| 0u8)));
}

/// Addition modulo the group order is associative.
pub proof fn lemma_sum_mod_order_associative(i: nat, j: nat, k: nat)
    ensures
        sum_mod_order(sum_mod_order(i, j), k) == sum_mod_order(i, sum_mod_order(j, k)),
{
    let m = group_order() as int;
    let (x, y, z) = (i as int, j as int, k as int);
    lemma_add_mod_noop(x + y, z, m);
    lemma_add_mod_noop(x, y + z, m);
    lemma_add_mod_noop((x + y) % m, z, m);
    lemma_add_mod_noop(x, (y + z) % m, m);
}

/// Zero is the unit of addition modulo the group order.
pub proof fn lemma_sum_mod_order_zero(i: nat)
    requires
        i < group_order(),
    ensures
        sum_mod_order(i, 0) == i,
        sum_mod_order(0, i) == i,
{
    lemma_small_mod(i, group_order());
}

/// Subtraction modulo the group order undoes addition.
pub proof fn lemma_difference_mod_order_of_sum(i: nat, j: nat)
    requires
        i < group_order(),
    ensures
        difference_mod_order(sum_mod_order(i, j), j) == i,
{
    let m = group_order() as int;
    let (x, y) = (i as int, j as int);
    lemma_sub_mod_noop(x + y, y, m);
    lemma_sub_mod_noop((x + y) % m, y, m);
    lemma_small_mod(i, group_order());
}

/// A number below the group order, subtracted from itself, leaves zero.
pub proof fn lemma_difference_mod_order_self(i: nat)
    ensures
        difference_mod_order(i, i) == 0,
{
    lemma_small_mod(0, group_order());
}

/// Multiplication modulo the group order is commutative.
pub proof fn lemma_product_mod_order_commutative(i: nat, j: nat)
    ensures
        product_mod_order(i, j) == product_mod_order(j, i),
{
    assert(i * j == j * i) by (nonlinear_arith);
}

/// Multiplication modulo the group order is associative.
pub proof fn lemma_product_mod_order_associative(i: nat, j: nat, k: nat)
    ensures
        product_mod_order(product_mod_order(i, j), k) == product_mod_order(
            i,
            product_mod_order(j, k),
        ),
{
    let m = group_order() as int;
    let (x, y, z) = (i as int, j as int, k as int);
    lemma_mul_mod_noop_left(x * y, z, m);
    lemma_mul_mod_noop_right(x, y * z, m);
    lemma_mul_is_associative(x, y, z);
}

/// One is the unit of multiplication modulo the group order.
pub proof fn lemma_product_mod_order_one(i: nat)
    requires
        i < group_order(),
    ensures
        product_mod_order(i, 1) == i,
        product_mod_order(1, i) == i,
{
    lemma_small_mod(i, group_order());
}

/// A number has at most one inverse below the group order.
pub proof fn lemma_inverse_mod_order_unique(a: nat, x: nat, y: nat)
    requires
        x < group_order(),
        y < group_order(),
        product_mod_order(a, x) == 1,
        product_mod_order(a, y) == 1,
    ensures
        x == y,
{
    lemma_product_mod_order_commutative(a, x);
    lemma_product_mod_order_associative(x, a, y);
    lemma_product_mod_order_one(x);
    lemma_product_mod_order_one(y);
}

} // verus!
