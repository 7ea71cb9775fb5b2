//! Data-parallel filling of a buffer, on rayon's thread pool.
use vstd::prelude::*;
use rayon::iter::{IndexedParallelIterator, IntoParallelRefMutIterator, ParallelIterator};

verus! {

/// Relies on rayon's `par_iter_mut().enumerate().for_each`: it visits every
/// slot of `out` once, paired with that slot's own index, and here each slot
/// is overwritten with `f` of its index. The calls to `f` may run on several
/// threads and in any order; each writes only its own slot.
#[verifier::external_body]
pub(crate) fn par_fill<T: Send, F: Fn(usize) -> T + Sync + Send>(out: &mut [T], f: F)
    requires
        forall|i: usize| i < old(out)@.len() ==> f.requires((i,)),
    ensures
        final(out)@.len() == old(out)@.len(),
        forall|i: usize| i < final(out)@.len() ==> f.ensures((i,), #[trigger] final(out)@[i as int]),
{
    out.par_iter_mut().enumerate().for_each(|(i, slot)| *slot = f(i));
}

} // verus!
