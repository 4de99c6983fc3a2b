//! Shared, cheaply clonable references.
use std::sync::Arc;

use vstd::prelude::*;

verus! {

/// Common cheaply-copyable reference type.
pub type Ref<T> = Arc<T>;

/// Calls `Arc::clone`: another handle to the same value.
#[verifier::external_body]
pub(crate) fn share<T>(r: &Ref<T>) -> (s: Ref<T>)
    ensures
        s == *r,
{
    Arc::clone(r)
}

} // verus!
