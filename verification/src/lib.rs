//! A typed data-access layer over a DynamoDB-style key/value document store:
//! condition and update expressions with deduplicated name/value placeholder
//! tables, attribute value conversion with per-field error classification,
//! and a batch key-retrieval state machine under the store's per-request
//! key-count limit.
#![verifier::loop_isolation(false)]

use vstd::prelude::*;

pub mod attr;
pub mod batch;
pub mod codec;
pub mod condition;
pub mod error;
pub mod table;
pub mod text;
pub mod update;

verus! {

/// Issues the numbers behind counter-based value placeholders (`:value<N>`).
/// Numbers are handed out strictly increasing and never reissued by the same
/// generator.
pub struct ValueIdGen {
    next: u64,
}

impl ValueIdGen {
    /// The number the next allocation will return.
    pub closed spec fn spec_next(&self) -> nat {
        self.next as nat
    }

    /// A fresh generator starting at zero.
    pub fn new() -> (r: ValueIdGen)
        ensures
            r.spec_next() == 0,
    {
        ValueIdGen { next: 0 }
    }

    /// The number the next allocation will return.
    pub fn current(&self) -> (r: u64)
        ensures
            r as nat == self.spec_next(),
    {
        self.next
    }

    /// Allocates one number: returns the current count and advances it.
    pub fn generate(&mut self) -> (r: u64)
        requires
            old(self).spec_next() < u64::MAX,
        ensures
            r as nat == old(self).spec_next(),
            final(self).spec_next() == old(self).spec_next() + 1,
    {
        let r = self.next;
        self.next = self.next + 1;
        r
    }
}

} // verus!
