//! Short codes made from a counter.

use vstd::prelude::*;
use std::collections::hash_map::DefaultHasher;
use std::hash::Hasher;
use vstd::bytes::spec_u64_to_le_bytes;
use vstd::std_specs::hash::DefaultHasherAdditionalSpecFns;
use crate::text::{decimal_digits, decimal_string};

verus! {

/// The eight bytes of a number in one of the two orders in which a machine
/// keeps them: least significant first, or most significant first.
pub open spec fn is_byte_order(bytes: Seq<u8>, x: u64) -> bool {
    bytes == spec_u64_to_le_bytes(x) || bytes == spec_u64_to_le_bytes(x).reverse()
}

/// The short code that the bytes of a counter value give: the decimal text
/// of the standard hasher's digest of them.
pub open spec fn code_of_bytes(bytes: Seq<u8>) -> Seq<char> {
    decimal_digits(DefaultHasher::spec_finish(seq![bytes]) as nat)
}

/// A short code of a counter value: the code of its bytes in one of the two
/// orders.
pub open spec fn is_code_of(code: Seq<char>, count: u64) -> bool {
    exists|bytes: Seq<u8>| #[trigger] is_byte_order(bytes, count) && code == code_of_bytes(bytes)
}

/// Calls `u64::to_ne_bytes` of the standard library: the bytes of the
/// number as this machine keeps them in memory. Which of the two orders
/// that is depends on the machine, so the contract allows both.
#[verifier::external_body]
fn native_bytes(x: u64) -> (r: Vec<u8>)
    ensures
        is_byte_order(r@, x),
{
    x.to_ne_bytes().to_vec()
}

/// Hands out short codes, one for each value of a counter.
pub struct Shortener {
    id: u64,
}

impl Shortener {
    /// How many codes have been handed out.
    pub closed spec fn count(&self) -> int {
        self.id as int
    }

    /// A shortener that has handed out no code yet.
    pub fn new() -> (s: Shortener)
        ensures
            s.count() == 0,
    {
        Shortener { id: 0 }
    }

    /// Whether another code can be handed out: the counter has not reached
    /// its last value.
    pub fn has_next(&self) -> (r: bool)
        ensures
            r == (self.count() < u64::MAX),
    {
        self.id < u64::MAX
    }

    /// The code of the current counter value; the counter moves on by one.
    pub fn next_id(&mut self) -> (r: String)
        requires
            old(self).count() < u64::MAX,
        ensures
            final(self).count() == old(self).count() + 1,
            is_code_of(r@, old(self).count() as u64),
    {
        let bytes = native_bytes(self.id);
        let mut hasher = DefaultHasher::new();
        hasher.write(bytes.as_slice());
        let digest: u64 = hasher.finish();
        assert(hasher@ =~= seq![bytes@]);
        assert(is_byte_order(bytes@, self.id));
        self.id = self.id + 1;
        decimal_string(digest)
    }
}

} // verus!
