//! The random choices the game makes: where a new word appears, and the
//! order in which the word list is dealt.
use vstd::prelude::*;
use rand::Rng;
use rand::seq::SliceRandom;

verus! {

/// Calls `rand::Rng::gen_range(low, high)` on the thread-local generator
/// (`rand::thread_rng`).  The value is drawn at random from `low..high`;
/// all that is claimed of it is that it lies in that range.  `gen_range`
/// panics when `low >= high`, so such inputs are excluded.
#[verifier::external_body]
pub(crate) fn random_in(low: usize, high: usize) -> (r: usize)
    requires
        low < high,
    ensures
        low <= r < high,
{
    rand::thread_rng().gen_range(low, high)
}

/// Calls `rand::seq::SliceRandom::shuffle` with the thread-local generator.
/// The new order is random; what is claimed is that the vector holds the
/// same strings as before, each as often as before.
#[verifier::external_body]
pub(crate) fn shuffle_words(words: &mut Vec<String>)
    ensures
        final(words)@.len() == old(words)@.len(),
        final(words)@.to_multiset() == old(words)@.to_multiset(),
{
    words.shuffle(&mut rand::thread_rng())
}

} // verus!
