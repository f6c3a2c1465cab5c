use vstd::prelude::*;

use pasta_curves::group::ff::PrimeField;
use pasta_curves::pallas;

verus! {

/// Number that a little-endian byte string encodes.
pub open spec fn le_value(b: Seq<u8>) -> nat
    decreases b.len(),
{
    if b.len() == 0 {
        0
    } else {
        b[0] as nat + 256 * le_value(b.drop_first())
    }
}

/// Modulus of the Pallas base field.
pub open spec fn field_modulus() -> nat {
    0x40000000000000000000000000000000224698fc094cf91b992d30ed00000001nat
}

/// Whether a 32-byte string is the canonical encoding of a field element.
pub open spec fn canonical(a: [u8; 32]) -> bool {
    le_value(a@) < field_modulus()
}

/// Whether field element `a` precedes `b` in the order of their encodings, compared from
/// the last (most significant) byte down.
pub open spec fn enc_lt(a: [u8; 32], b: [u8; 32]) -> bool {
    exists|k: int|
        0 <= k < 32 && a@[k] < b@[k] && forall|j: int| k < j < 32 ==> #[trigger] a@[j] == b@[j]
}

/// Relies on pallas::Base::from(u64) and to_repr: the little-endian encoding of `v` in
/// the field.
#[verifier::external_body]
pub(crate) fn field_from_u64(v: u64) -> (r: [u8; 32])
    ensures
        le_value(r@) == v as nat,
{
    pallas::Base::from(v).to_repr()
}

/// Relies on pallas::Base multiplication, with from_repr and to_repr for the encodings:
/// the product modulo the field's modulus.
#[verifier::external_body]
pub(crate) fn field_mul(a: &[u8; 32], b: &[u8; 32]) -> (r: [u8; 32])
    requires
        canonical(*a),
        canonical(*b),
    ensures
        le_value(r@) == (le_value(a@) * le_value(b@)) % field_modulus(),
{
    let x = pallas::Base::from_repr(*a).unwrap();
    let y = pallas::Base::from_repr(*b).unwrap();
    (x * y).to_repr()
}

/// Relies on pallas::Base addition, with from_repr and to_repr for the encodings: the sum
/// modulo the field's modulus.
#[verifier::external_body]
pub(crate) fn field_add(a: &[u8; 32], b: &[u8; 32]) -> (r: [u8; 32])
    requires
        canonical(*a),
        canonical(*b),
    ensures
        le_value(r@) == (le_value(a@) + le_value(b@)) % field_modulus(),
{
    let x = pallas::Base::from_repr(*a).unwrap();
    let y = pallas::Base::from_repr(*b).unwrap();
    (x + y).to_repr()
}

/// Whether `a` precedes `b` in the order of their encodings.
pub fn field_lt(a: &[u8; 32], b: &[u8; 32]) -> (r: bool)
    ensures
        r == enc_lt(*a, *b),
{
    let mut i: usize = 32;
    while i > 0
        invariant
            i <= 32,
            forall|j: int| i <= j < 32 ==> #[trigger] a@[j] == b@[j],
        decreases i,
    {
        let k = i - 1;
        if a[k] < b[k] {
            assert(forall|j: int| k < j < 32 ==> #[trigger] a@[j] == b@[j]);
            return true;
        }
        if a[k] > b[k] {
            assert forall|m: int| 0 <= m < 32 && a@[m] < b@[m] implies !(forall|j: int| m < j < 32 ==> #[trigger] a@[j] == b@[j]) by {
                if m < k {
                    assert(a@[k as int] != b@[k as int]);
                }
            }
            return false;
        }
        i = k;
    }
    false
}

} // verus!
