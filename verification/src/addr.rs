use vstd::prelude::*;

verus! {

/// A principal identifier: a 20-byte account address.
pub type Addr = [u8; 20];

/// Number of bytes in an address.
pub const ADDR_LEN: usize = 20;

/// Whether an address is the all-zero address, which marks "unset".
pub open spec fn is_zero_addr(a: Addr) -> bool {
    forall|i: int| 0 <= i < 20 ==> a@[i] == 0u8
}

/// Compares two addresses byte for byte.
pub fn addr_eq(a: &Addr, b: &Addr) -> (r: bool)
    ensures
        r == (a@ =~= b@),
{
    let mut i: usize = 0;
    while i < 20
        invariant
            0 <= i <= 20,
            forall|j: int| 0 <= j < i ==> a@[j] == b@[j],
        decreases 20 - i,
    {
        if a[i] != b[i] {
            return false;
        }
        i += 1;
    }
    true
}

/// Returns the all-zero address.
pub fn zero_addr() -> (r: Addr)
    ensures
        is_zero_addr(r),
{
    [0u8; 20]
}

/// Tests whether an address is the all-zero address.
pub fn is_zero(a: &Addr) -> (r: bool)
    ensures
        r == is_zero_addr(*a),
{
    let mut i: usize = 0;
    while i < 20
        invariant
            0 <= i <= 20,
            forall|j: int| 0 <= j < i ==> a@[j] == 0u8,
        decreases 20 - i,
    {
        if a[i] != 0 {
            return false;
        }
        i += 1;
    }
    true
}

} // verus!
