//! The seed of a randomly generated puzzle.
use vstd::prelude::*;
use std::collections::hash_map::DefaultHasher;
use std::hash::{BuildHasher, BuildHasherDefault};

verus! {

/// Calls `rand::random::<u64>()`: a number from the thread-local generator of `rand`,
/// seeded from the operating system. Nothing is claimed of the number; the call panics
/// only if the operating system cannot provide a seed, when the generator is first
/// seeded or when it reseeds itself.
#[verifier::external_body]
fn random_number() -> u64 {
    rand::random::<u64>()
}

/// The hash that std's `BuildHasherDefault<DefaultHasher>` gives a text.
pub uninterp spec fn text_hash_of(text: Seq<char>) -> u64;

/// Calls `hash_one` of std's `BuildHasherDefault<DefaultHasher>` on the text. The contract
/// claims only that the hash depends on the text alone: every `DefaultHasher` made by
/// `new` or `default` is the same, as std documents; the algorithm itself, which std leaves
/// unspecified between releases, is not spelled out.
#[verifier::external_body]
fn text_hash(text: &str) -> (r: u64)
    ensures
        r == text_hash_of(text@),
{
    BuildHasherDefault::<DefaultHasher>::default().hash_one(text)
}

/// The seed of a random puzzle: a random number while no seed text is entered, and the
/// hash of the text otherwise, so that the same text gives the same puzzle.
///
/// Nothing is claimed of the random number.
pub fn get_seed(text: &str) -> (r: u64)
    ensures
        text@.len() > 0 ==> r == text_hash_of(text@),
{
    if text.unicode_len() == 0 {
        random_number()
    } else {
        text_hash(text)
    }
}

} // verus!
