//! The repeat-count template helper's bookkeeping.

use vstd::prelude::*;

verus! {

/// The repeat-count template helper: a template block under it is rendered
/// once per index below the given count, with the block-local variables
/// `index`, `first` and `last` bound for each pass.
///
/// The bindings each pass receives are computed and proved here.  The
/// library's render engine runs bare — registering a block helper means
/// driving the engine's render context through its own traits, which cannot
/// cross the verified boundary — so a template calling `forRange` is
/// refused at render time rather than rendered.
#[derive(Clone, Copy)]
pub struct ForRangHelper;

impl ForRangHelper {
    /// The block-local bindings of every pass for a count, in order: the
    /// index, whether the pass is the first, whether it is the last.
    pub fn locals(n: u64) -> (r: Vec<(u64, bool, bool)>)
        ensures
            r@.len() == n,
            forall|i: int|
                0 <= i < n ==> (#[trigger] r@[i]).0 == i && r@[i].1 == (i == 0) && r@[i].2 == (
                i == n - 1),
    {
        let mut out: Vec<(u64, bool, bool)> = Vec::new();
        let mut i: u64 = 0;
        while i < n
            invariant
                i <= n,
                out@.len() == i,
                forall|j: int|
                    0 <= j < i ==> (#[trigger] out@[j]).0 == j && out@[j].1 == (j == 0)
                        && out@[j].2 == (j == n - 1),
            decreases n - i,
        {
            out.push((i, i == 0, i == n - 1));
            i += 1;
        }
        out
    }
}

} // verus!
