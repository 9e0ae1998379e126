//! Fork-join execution on rayon's worker pool.

use rayon::iter::{IndexedParallelIterator, IntoParallelIterator, ParallelIterator};
use vstd::prelude::*;

verus! {

/// Relies on rayon's `IntoParallelIterator` for `Range<usize>`, `map` and
/// `IndexedParallelIterator::collect_into_vec`: `f` is called once for each
/// index below `n`, on any worker and in any order, and the result for index
/// `i` is stored at position `i`.
#[verifier::external_body]
pub(crate) fn par_map_indices<T: Send, F: Fn(usize) -> T + Sync + Send>(n: usize, f: F) -> (r: Vec<T>)
    requires
        forall|i: usize| i < n ==> f.requires((i,)),
    ensures
        r@.len() == n,
        forall|i: int| 0 <= i < n ==> f.ensures((i as usize,), #[trigger] r@[i]),
{
    let mut out = Vec::new();
    (0..n).into_par_iter().map(f).collect_into_vec(&mut out);
    out
}

/// Relies on `rayon::current_num_threads`: the size of the pool that the
/// calling thread would run parallel work on.  It depends on the process's
/// configuration; a pool always has at least one thread.
#[verifier::external_body]
pub(crate) fn current_num_threads() -> (r: usize)
    ensures
        r >= 1,
{
    rayon::current_num_threads()
}

/// Relies on `rayon::ThreadPoolBuilder::build_global`: asks for a global
/// pool of `threads` workers.  Whether it succeeds depends on whether the
/// global pool already exists, so nothing is stated of the result.
#[verifier::external_body]
pub(crate) fn configure_global_pool(threads: usize) -> (r: bool) {
    rayon::ThreadPoolBuilder::new().num_threads(threads).build_global().is_ok()
}

} // verus!
