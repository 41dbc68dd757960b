//! What the library draws at random. Nothing here is proved: the contracts
//! say what the documentation of `rand` promises of every draw.

use rand::seq::SliceRandom;
use rand::Rng;
use vstd::prelude::*;

use crate::characters::Side;

verus! {

/// `rand::Rng::gen_range` on the half-open range from `low` to `high`, with
/// the generator of the current thread (`rand::thread_rng`). The call panics
/// on an empty range, which `requires` rules out. Trusted: the number drawn
/// lies in the range. Which number it is depends on the generator alone.
#[verifier::external_body]
pub(crate) fn gen_range(low: u32, high: u32) -> (n: u32)
    requires
        low < high,
    ensures
        low <= n < high,
{
    rand::thread_rng().gen_range(low..high)
}

/// `rand::seq::SliceRandom::choose_multiple` for two of `sides`, with the
/// generator of the current thread. The call hands out as many items as it is
/// asked for where the slice holds as many, so there are two. Trusted: both
/// sides drawn are among `sides`, and as the call chooses without repetition
/// from sides that are all different, the two differ.
#[verifier::external_body]
pub(crate) fn choose_two(sides: &Vec<Side>) -> (pair: (Side, Side))
    requires
        sides@.len() >= 2,
        sides@.no_duplicates(),
    ensures
        sides@.contains(pair.0),
        sides@.contains(pair.1),
        pair.0 != pair.1,
{
    let mut rng = rand::thread_rng();
    let picked: Vec<Side> = sides.choose_multiple(&mut rng, 2).cloned().collect();
    (picked[0], picked[1])
}

} // verus!
