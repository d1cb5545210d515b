//! Random choices.

use vstd::prelude::*;
use rand::seq::IndexedRandom;
use crate::map::Lane;

verus! {

/// Draws one lane from `lanes` with `IndexedRandom::choose` of the `rand`
/// crate on the generator of the current thread. The draw gives nothing for
/// an empty list and otherwise one of the list's entries; which one is left
/// open.
#[verifier::external_body]
pub(crate) fn choose_lane(lanes: &Vec<Lane>) -> (picked: Option<Lane>)
    ensures
        lanes@.len() == 0 ==> picked is None,
        lanes@.len() > 0 ==> picked is Some && lanes@.contains(picked->0),
{
    lanes.choose(&mut rand::rng()).copied()
}

} // verus!
