//! A fixed-width account address.

use vstd::prelude::*;

verus! {

/// A 64-byte address.
#[derive(Debug, Clone, Copy)]
pub struct Address(pub [u8; 64]);

pub open spec fn zero_bytes(n: nat) -> Seq<u8> {
    Seq::new(n, |i: int| 0u8)
}

impl Address {
    /// An all-zero buffer the size of an address.
    pub fn buffer() -> (r: [u8; 64])
        ensures
            r@ == zero_bytes(64),
    {
        let r = [0u8; 64];
        assert(r@ =~= zero_bytes(64));
        r
    }
}

impl Default for Address {
    /// The all-zero address.
    fn default() -> (r: Address)
        ensures
            r.0@ == zero_bytes(64),
    {
        Address(Address::buffer())
    }
}

} // verus!
