//! The first position at which something goes wrong. Resolution reports the
//! first error in the order of declaration, so the contracts speak of first
//! positions throughout.

use vstd::prelude::*;

verus! {

/// The least index below `n` at which `bad` holds, if there is one.
pub open spec fn first_index(n: int, bad: spec_fn(int) -> bool) -> Option<int>
    decreases n,
{
    if n <= 0 {
        None
    } else {
        match first_index(n - 1, bad) {
            Some(i) => Some(i),
            None => if bad(n - 1) {
                Some(n - 1)
            } else {
                None
            },
        }
    }
}

/// `first_index` finds an index at which `bad` holds and before which it does
/// not, or there is none below `n`.
pub proof fn lemma_first_index(n: int, bad: spec_fn(int) -> bool)
    ensures
        match first_index(n, bad) {
            Some(i) => 0 <= i < n && bad(i) && forall|j: int| 0 <= j < i ==> !#[trigger] bad(j),
            None => forall|j: int| 0 <= j < n ==> !#[trigger] bad(j),
        },
    decreases n,
{
    if n > 0 {
        lemma_first_index(n - 1, bad);
    }
}

/// An index at which `bad` holds and before which it does not is the first.
pub proof fn lemma_first_index_is(n: int, bad: spec_fn(int) -> bool, i: int)
    requires
        0 <= i < n,
        bad(i),
        forall|j: int| 0 <= j < i ==> !#[trigger] bad(j),
    ensures
        first_index(n, bad) == Some(i),
{
    lemma_first_index(n, bad);
}

/// Where `bad` holds nowhere below `n`, there is no first index.
pub proof fn lemma_first_index_none(n: int, bad: spec_fn(int) -> bool)
    requires
        forall|j: int| 0 <= j < n ==> !#[trigger] bad(j),
    ensures
        first_index(n, bad) is None,
{
    lemma_first_index(n, bad);
}

} // verus!
