//! What the platform provides: a monotonic clock and randomness.

use vstd::prelude::*;
use std::time::Instant;
use rand::seq::IndexedRandom;
use crate::ids::texts;
use crate::units::min_of;

verus! {

#[verifier::external_type_specification]
#[verifier::external_body]
pub struct ExInstant(Instant);

/// Trusted: `std::time::Instant::now`. Nothing is claimed of the instant.
#[verifier::external_body]
pub(crate) fn clock_start() -> (epoch: Instant) {
    Instant::now()
}

/// Trusted: `std::time::Instant::elapsed`, in whole milliseconds. Nothing is
/// claimed of the reading.
#[verifier::external_body]
pub(crate) fn clock_read(epoch: &Instant) -> (now: u64) {
    u64::try_from(epoch.elapsed().as_millis()).unwrap_or(u64::MAX)
}

/// Whether `needle` stands somewhere in `text`.
pub open spec fn occurs_in(needle: Seq<char>, text: Seq<char>) -> bool {
    exists|i: int|
        0 <= i && i + needle.len() <= text.len() && #[trigger] text.subrange(
            i,
            i + needle.len(),
        ) == needle
}

/// Trusted: `str::contains` with a string as the pattern: whether the
/// pattern matches a part of the text.
#[verifier::external_body]
pub(crate) fn text_contains(text: &str, needle: &str) -> (found: bool)
    ensures
        found == occurs_in(needle@, text@),
{
    text.contains(needle)
}

/// Trusted: `rand::random`. Nothing is claimed of the word.
#[verifier::external_body]
pub(crate) fn random_word() -> (word: u64) {
    rand::random::<u64>()
}

/// Trusted: `rand::Rng::random_ratio` on the thread's generator: `true` with
/// probability `numerator / denominator`. Nothing is claimed of the outcome.
#[verifier::external_body]
pub(crate) fn random_ratio(numerator: u32, denominator: u32) -> (hit: bool)
    requires
        0 < denominator,
        numerator <= denominator,
{
    rand::Rng::random_ratio(&mut rand::rng(), numerator, denominator)
}

/// Whether `chosen` is a sample of `amount` items of `pool`, or of all of
/// them if there are fewer, taken from pairwise different positions.
pub open spec fn sampled_from(chosen: Seq<Seq<char>>, pool: Seq<Seq<char>>, amount: int) -> bool {
    &&& chosen.len() == min_of(amount, pool.len() as int)
    &&& exists|at: Seq<int>|
        at.len() == chosen.len() && at.no_duplicates() && forall|k: int|
            0 <= k < at.len() ==> 0 <= #[trigger] at[k] < pool.len() && chosen[k] == pool[at[k]]
}

/// Trusted: `rand::seq::IndexedRandom::choose_multiple` on the thread's
/// generator. The sample holds `amount` items of `pool`, or all of them if
/// there are fewer, taken from pairwise different positions.
#[verifier::external_body]
pub(crate) fn choose_ids(pool: &Vec<String>, amount: usize) -> (chosen: Vec<String>)
    ensures
        sampled_from(texts(chosen@), texts(pool@), amount as int),
{
    let mut rng = rand::rng();
    pool.choose_multiple(&mut rng, amount).cloned().collect()
}

} // verus!
