use vstd::prelude::*;
use rand::seq::SliceRandom;
use rand::Rng;

verus! {

/// Relies on rand's `SliceRandom::choose` with `rand::thread_rng()`: `None` for
/// an empty slice, otherwise one of its elements, drawn uniformly. Nothing is
/// known of which one. (`thread_rng` panics only if the operating system's
/// entropy source cannot seed it.)
#[verifier::external_body]
pub(crate) fn choose_index(items: &Vec<usize>) -> (r: Option<usize>)
    ensures
        r is None <==> items@.len() == 0,
        r matches Some(v) ==> items@.contains(v),
{
    items.choose(&mut rand::thread_rng()).copied()
}

/// Relies on rand's `Rng::gen_range(0..bound)` with `rand::thread_rng()`: a
/// number below `bound`, drawn uniformly. `gen_range` panics on an empty
/// range, hence `0 < bound`.
#[verifier::external_body]
pub(crate) fn roll_below(bound: u32) -> (r: u32)
    requires
        0 < bound,
    ensures
        r < bound,
{
    rand::thread_rng().gen_range(0..bound)
}

} // verus!
