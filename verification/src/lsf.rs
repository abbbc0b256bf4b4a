//! The one property of a binary (LSF) document that has to hold before its attributes are walked:
//! each attribute's link to the next attribute of its node points forward.
//!
//! maclarian's reader takes every attribute's `next_index` from the file as it stands, and both
//! its attribute lookup and its LSX converter follow those links until one is negative or leaves
//! the table. A link back to the attribute itself or to an earlier one would make that walk go on
//! forever, so a document is only walked once its links are known to point forward.

use vstd::prelude::*;

verus! {

/// Whether every link ends its chain (negative) or points past its own attribute, so that a walk
/// along the links ends
pub open spec fn links_forward_spec(links: Seq<i32>) -> bool {
    forall|i: int| 0 <= i < links.len() ==> #[trigger] links[i] < 0 || links[i] > i
}

/// Whether a walk along these attribute links (the `next_index` of each attribute, in table
/// order) ends
pub fn links_forward(links: &[i32]) -> (r: bool)
    ensures
        r == links_forward_spec(links@),
{
    let mut i: usize = 0;
    while i < links.len()
        invariant
            i <= links@.len(),
            forall|j: int| 0 <= j < i ==> #[trigger] links@[j] < 0 || links@[j] > j,
        decreases links@.len() - i,
    {
        let l = links[i];
        if l >= 0 && (l as usize) <= i {
            assert(!(links@[i as int] < 0 || links@[i as int] > i));
            return false;
        }
        i = i + 1;
    }
    true
}

} // verus!
