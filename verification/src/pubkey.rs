//! Account addresses.

use vstd::prelude::*;
pub use pinocchio::pubkey::Pubkey;

verus! {

/// The address of this program: the owner of every account that holds one of its records.
pub const PROGRAM_ID: Pubkey = [
    6, 221, 246, 225, 215, 101, 161, 147, 217, 203, 225, 70, 206, 235, 121, 172,
    28, 180, 133, 237, 95, 91, 55, 145, 58, 140, 245, 133, 126, 255, 0, 169,
];

/// The address of the mint of the wrapped native currency.
pub const NATIVE_MINT_ID: Pubkey = [
    6, 155, 136, 87, 254, 171, 129, 132, 251, 104, 127, 99, 70, 24, 192, 53,
    218, 196, 57, 220, 26, 235, 59, 85, 152, 160, 240, 0, 0, 0, 0, 1,
];

/// The address of the system program, the owner of an account that holds no record.
pub const SYSTEM_PROGRAM_ID: Pubkey = [
    0, 0, 0, 0, 0, 0, 0, 0, 0, 0, 0, 0, 0, 0, 0, 0,
    0, 0, 0, 0, 0, 0, 0, 0, 0, 0, 0, 0, 0, 0, 0, 0,
];

/// Whether two addresses are the same.
pub fn pubkey_eq(a: &Pubkey, b: &Pubkey) -> (same: bool)
    ensures
        same == (*a == *b),
{
    let mut i: usize = 0;
    while i < 32
        invariant
            i <= 32,
            forall|j: int| 0 <= j < i ==> a[j] == b[j],
        decreases 32 - i,
    {
        if a[i] != b[i] {
            return false;
        }
        i += 1;
    }
    assert(*a =~= *b);
    true
}

/// Whether an optional address is present and is the given address.
pub fn is_some_pubkey(slot: &Option<Pubkey>, key: &Pubkey) -> (same: bool)
    ensures
        same == (*slot == Some(*key)),
{
    match slot {
        Some(held) => pubkey_eq(held, key),
        None => false,
    }
}

} // verus!
