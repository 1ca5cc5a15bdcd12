//! Values drawn from outside the program: identifiers and random numbers;
//! and why an unused number can always be found without drawing.

use vstd::prelude::*;

use crate::models::Id;

verus! {

/// How often a random value is drawn before the unused values are searched
/// in their order.
pub const MAX_DRAWS: usize = 1024;

/// Draws an identifier with `uuid::Uuid::new_v4` and returns the integer
/// that `Uuid::as_u128` gives for it. Nothing is claimed of the value: two
/// draws may even agree.
#[verifier::external_body]
pub(crate) fn random_id() -> (id: Id) {
    uuid::Uuid::new_v4().as_u128()
}

/// Samples `0..bound` with `rand::Rng::gen_range` on the generator that
/// `rand::thread_rng` hands out. The sample lies below `bound`; an empty
/// range, on which `gen_range` panics, is left out.
#[verifier::external_body]
pub(crate) fn random_below(bound: usize) -> (n: usize)
    requires
        bound > 0,
    ensures
        n < bound,
{
    rand::Rng::gen_range(&mut rand::thread_rng(), 0..bound)
}

/// A machine word from `rand::random`. Nothing is claimed of the value.
#[verifier::external_body]
pub(crate) fn random_word() -> (n: usize) {
    rand::random::<usize>()
}

/// Fills 32 bytes with `rand::RngCore::fill_bytes` on the generator that
/// `rand::thread_rng` hands out. Only the number of bytes is claimed.
#[verifier::external_body]
pub(crate) fn random_bytes() -> (bytes: Vec<u8>)
    ensures
        bytes@.len() == 32,
{
    let mut bytes = [0u8; 32];
    rand::RngCore::fill_bytes(&mut rand::thread_rng(), &mut bytes);
    bytes.to_vec()
}

/// A list of numbers cannot hold every number from zero up to its length:
/// one of them is free.
pub proof fn lemma_some_number_is_free(used: Seq<int>)
    ensures
        exists|n: int| 0 <= n <= used.len() && !(#[trigger] used.contains(n)),
{
    let len = used.len() as int;
    if forall|n: int| 0 <= n <= len ==> #[trigger] used.contains(n) {
        used.lemma_cardinality_of_set();
        let candidates = vstd::set_lib::set_int_range(0, len + 1);
        vstd::set_lib::lemma_int_range(0, len + 1);
        assert forall|n: int| candidates.contains(n) implies used.to_set().contains(n) by {
            assert(used.contains(n));
        }
        assert(candidates.subset_of(used.to_set()));
        vstd::seq_lib::seq_to_set_is_finite(used);
        vstd::set_lib::lemma_len_subset(candidates, used.to_set());
        assert(false);
    }
}

} // verus!
