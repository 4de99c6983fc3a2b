//! Adapters used by shape builders.
use vstd::prelude::*;

use crate::correction::{ErrorCorrection, ErrorCorrectionDefault};

verus! {

/// A required value of a builder, which may not be set yet.
pub enum Required<T: ErrorCorrectionDefault> {
    Provided(T),
    Unset,
}

impl<T: ErrorCorrectionDefault> Required<T> {
    /// The value; an unset value is corrected to the type's default.
    pub fn get(self) -> (r: T)
        ensures
            self matches Required::Provided(v) ==> r == v,
            self is Unset ==> T::is_default(r),
    {
        match self {
            Required::Unset => T::default(),
            Required::Provided(v) => v,
        }
    }
}

/// A member of a builder holding either a built shape or the builder of one.
#[verifier::reject_recursive_types(S)]
pub enum MaybeBuilt<S: ErrorCorrectionDefault, B: ErrorCorrection<Value = S>> {
    Struct(S),
    Builder(B),
}

impl<S: ErrorCorrectionDefault, B: ErrorCorrection<Value = S>> ErrorCorrectionDefault for MaybeBuilt<S, B> {
    open spec fn is_default(r: Self) -> bool {
        r matches MaybeBuilt::Struct(s) && S::is_default(s)
    }

    fn default() -> (r: Self) {
        MaybeBuilt::Struct(S::default())
    }
}

impl<S: ErrorCorrectionDefault, B: ErrorCorrection<Value = S>> ErrorCorrection for MaybeBuilt<S, B> {
    type Value = S;

    fn correct(self) -> (r: S)
        ensures
            self matches MaybeBuilt::Struct(s) ==> r == s,
            self matches MaybeBuilt::Builder(b) ==> call_ensures(B::correct, (b,), r),
    {
        match self {
            MaybeBuilt::Struct(s) => s,
            MaybeBuilt::Builder(b) => b.correct(),
        }
    }
}

} // verus!
