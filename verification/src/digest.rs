//! Fast non-cryptographic content hashing, used to detect changed payloads.

use std::collections::hash_map::DefaultHasher;
use std::hash::Hash;
use std::hash::Hasher;
use vstd::prelude::*;
use vstd::std_specs::hash::DefaultHasherAdditionalSpecFns;

verus! {

/// The sequence of writes that hashing a string feeds into a hasher.
pub uninterp spec fn hashed_writes(text: Seq<char>) -> Seq<Seq<u8>>;

/// The hash that `calculate_hash` gives to a text.
pub open spec fn hash_of(text: Seq<char>) -> u64 {
    DefaultHasher::spec_finish(hashed_writes(text))
}

/// Calls `<String as Hash>::hash`. The writes a string performs on the
/// hasher depend on the string's characters alone, so they are appended to
/// the hasher's record under one name.
#[verifier::external_body]
fn feed_string(t: &String, state: &mut DefaultHasher)
    ensures
        final(state)@ == old(state)@ + hashed_writes(t@),
{
    t.hash(state)
}

/// Hashes a text with the standard library's default hasher, freshly keyed
/// with its fixed key, so that equal texts always hash alike.
pub fn calculate_hash(t: &String) -> (h: u64)
    ensures
        h == hash_of(t@),
{
    let mut s = DefaultHasher::new();
    feed_string(t, &mut s);
    proof {
        assert(s@ =~= hashed_writes(t@));
    }
    s.finish()
}

} // verus!
