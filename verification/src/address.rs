//! Account addresses and the comparisons the registry makes on them.

use vstd::prelude::*;

verus! {

/// A fixed-width account identifier.
pub type PublicAddress = pchain_types::cryptography::PublicAddress;

/// The address whose bytes are all zero; it stands for "no address" in
/// notification payloads.
pub fn zero_address() -> (r: PublicAddress)
    ensures
        forall|i: int| 0 <= i < 32 ==> r[i] == 0u8,
{
    [0u8; 32]
}

/// Byte-for-byte comparison of two addresses.
pub fn same_address(a: &PublicAddress, b: &PublicAddress) -> (r: bool)
    ensures
        r == (*a == *b),
{
    let mut i: usize = 0;
    while i < 32
        invariant
            i <= 32,
            forall|j: int| 0 <= j < i ==> a[j] == b[j],
        decreases 32 - i,
    {
        if a[i] != b[i] {
            return false;
        }
        i += 1;
    }
    proof {
        assert(*a =~= *b);
    }
    true
}

/// Comparison of two optional addresses: equal when both are absent or both
/// hold the same address.
pub fn same_spender(a: &Option<PublicAddress>, b: &Option<PublicAddress>) -> (r: bool)
    ensures
        r == (*a == *b),
{
    match (a, b) {
        (None, None) => true,
        (Some(x), Some(y)) => same_address(x, y),
        _ => false,
    }
}

/// The address itself, or the zero address where there is none.
pub fn address_or_zero(a: &Option<PublicAddress>) -> (r: PublicAddress)
    ensures
        r@ == spec_address_or_zero(*a),
{
    match a {
        Some(x) => *x,
        None => {
            let z = zero_address();
            proof {
                assert(z@ =~= Seq::new(32, |i: int| 0u8));
            }
            z
        },
    }
}

/// The address made of `bytes`, where there are exactly 32 of them.
pub fn address_from_bytes(bytes: &[u8]) -> (r: Option<PublicAddress>)
    ensures
        r is Some <==> bytes@.len() == 32,
        r matches Some(a) ==> a@ == bytes@,
{
    if bytes.len() != 32 {
        return None;
    }
    let mut a: PublicAddress = [0u8; 32];
    let mut i: usize = 0;
    while i < 32
        invariant
            i <= 32,
            bytes@.len() == 32,
            forall|j: int| 0 <= j < i ==> a[j] == bytes@[j],
        decreases 32 - i,
    {
        a[i] = bytes[i];
        i += 1;
    }
    proof {
        assert(a@ =~= bytes@);
    }
    Some(a)
}

/// The bytes that stand for an optional address in a payload.
pub open spec fn spec_address_or_zero(a: Option<PublicAddress>) -> Seq<u8> {
    match a {
        Some(x) => x@,
        None => Seq::new(32, |i: int| 0u8),
    }
}

} // verus!
