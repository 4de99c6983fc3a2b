//! Checks over lists of member names.
use vstd::prelude::*;

use crate::text::str_eq;

verus! {

/// Whether one of the names in `arr` is `key`.
pub open spec fn holds_name(arr: Seq<&str>, key: Seq<char>) -> bool {
    exists|i: int| 0 <= i < arr.len() && (#[trigger] arr[i])@ == key
}

/// Whether `arr` holds `key`.
pub fn contains(arr: &[&str], key: &str) -> (r: bool)
    ensures
        r == holds_name(arr@, key@),
{
    let mut idx: usize = 0;
    while idx < arr.len()
        invariant
            idx <= arr@.len(),
            forall|j: int| 0 <= j < idx ==> (#[trigger] arr@[j])@ != key@,
        decreases arr@.len() - idx,
    {
        if str_eq(arr[idx], key) {
            assert(arr@[idx as int]@ == key@);
            return true;
        }
        idx = idx + 1;
    }
    false
}

/// Asserts that `this` holds every name in `other`; used to check that a derived
/// shape holds every key of its parent schema.
pub fn assert_contains_all(this: &[&str], other: &[&str])
    requires
        forall|k: int| 0 <= k < other@.len() ==> holds_name(this@, (#[trigger] other@[k])@),
{
    let mut idx: usize = 0;
    while idx < other.len()
        invariant
            idx <= other@.len(),
            forall|k: int| 0 <= k < other@.len() ==> holds_name(this@, (#[trigger] other@[k])@),
        decreases other@.len() - idx,
    {
        let found = contains(this, other[idx]);
        assert(found);
        idx = idx + 1;
    }
}

} // verus!
