use vstd::prelude::*;

verus! {

/// One element of `items`, picked by `rand::seq::SliceRandom::choose` with
/// the generator of `rand::thread_rng()`.
///
/// Claimed of it, as rand's source shows: `None` exactly when `items` is
/// empty, and otherwise a reference to one of its elements. Which element
/// comes back is chance, and nothing is said of it.
#[verifier::external_body]
pub(crate) fn pick_one<T>(items: &[T]) -> (r: Option<&T>)
    ensures
        r is None <==> items@.len() == 0,
        r matches Some(x) ==> items@.contains(*x),
{
    rand::seq::SliceRandom::choose(items, &mut rand::thread_rng())
}

} // verus!
