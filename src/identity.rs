use vstd::prelude::*;

use std::hash::BuildHasher;

verus! {

/// The node id that std's default hasher gives to an address.
pub uninterp spec fn node_id_of(address: Seq<char>) -> u64;

/// Relies on `BuildHasher::hash_one` over `BuildHasherDefault<DefaultHasher>`:
/// every `DefaultHasher` made by `new` or `default` hashes alike, so the id is
/// a function of the address text alone.
#[verifier::external_body]
fn hash_address(address: &str) -> (r: u64)
    ensures
        r == node_id_of(address@),
{
    std::hash::BuildHasherDefault::<std::collections::hash_map::DefaultHasher>::default().hash_one(
        address,
    )
}

/// Derives a node's id from the address it listens on.
pub fn derive_id(address: &str) -> (r: u64)
    ensures
        r == node_id_of(address@),
{
    hash_address(address)
}

/// Ids are stable: equal address texts give equal ids, whichever process or
/// call computes them, since the id depends on the text alone.
pub proof fn lemma_derive_id_stable(a: Seq<char>, b: Seq<char>)
    requires
        a == b,
    ensures
        node_id_of(a) == node_id_of(b),
{
}

} // verus!
