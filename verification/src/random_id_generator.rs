//! The identifier generator: a globally unique opaque token per call.
//! Uniqueness is all callers rely on; the registry tolerates a repeat by
//! last-writer-wins semantics.

use vstd::prelude::*;

verus! {

pub struct RandomIdGenerator;

impl RandomIdGenerator {
    /// Relies on uuid::Uuid::new_v4 and its Simple formatter: a fresh
    /// random identifier rendered as exactly 32 hexadecimal characters.
    /// The value is random; nothing beyond its length is promised.
    #[verifier::external_body]
    pub fn get_random_uuid() -> (r: String)
        ensures
            r@.len() == 32,
    {
        uuid::Uuid::new_v4().simple().to_string()
    }
}

} // verus!
