//! Error correction: filling unset required values so that an invalid shape can still
//! be built.
use vstd::prelude::*;

use crate::documents::{DefaultDocumentValue, Document};
use crate::numbers::{Decimal, Timestamp};
use crate::schema::{is_prelude_scalar, prelude_type_name};
use crate::shapes::{shape_id_of_parts, ShapeType};

verus! {

/// A shape that can be corrected by filling its unset required values.
pub trait ErrorCorrection: Sized {
    /// The type of the corrected value.
    type Value;

    /// Fills unset required values.
    fn correct(self) -> Self::Value;
}

/// The value an unset required value is corrected to.
pub trait ErrorCorrectionDefault: Sized {
    /// Whether `v` is the default value of the type.
    spec fn is_default(v: Self) -> bool;

    /// The default value used in error correction.
    fn default() -> (r: Self)
        ensures
            Self::is_default(r),
    ;
}

impl ErrorCorrectionDefault for bool {
    open spec fn is_default(r: bool) -> bool {
        !r
    }

    fn default() -> (r: bool) {
        false
    }
}

impl ErrorCorrectionDefault for i8 {
    open spec fn is_default(r: i8) -> bool {
        r == 0
    }

    fn default() -> (r: i8) {
        0
    }
}

impl ErrorCorrectionDefault for i16 {
    open spec fn is_default(r: i16) -> bool {
        r == 0
    }

    fn default() -> (r: i16) {
        0
    }
}

impl ErrorCorrectionDefault for i32 {
    open spec fn is_default(r: i32) -> bool {
        r == 0
    }

    fn default() -> (r: i32) {
        0
    }
}

impl ErrorCorrectionDefault for i64 {
    open spec fn is_default(r: i64) -> bool {
        r == 0
    }

    fn default() -> (r: i64) {
        0
    }
}

impl ErrorCorrectionDefault for i128 {
    open spec fn is_default(r: i128) -> bool {
        r == 0
    }

    fn default() -> (r: i128) {
        0
    }
}

impl ErrorCorrectionDefault for Decimal {
    open spec fn is_default(r: Decimal) -> bool {
        r == (Decimal { unscaled: 0, scale: 0 })
    }

    fn default() -> (r: Decimal) {
        Decimal { unscaled: 0, scale: 0 }
    }
}

impl ErrorCorrectionDefault for Timestamp {
    open spec fn is_default(r: Timestamp) -> bool {
        r.epoch_nanos == 0
    }

    fn default() -> (r: Timestamp) {
        Timestamp { epoch_nanos: 0 }
    }
}

impl ErrorCorrectionDefault for String {
    open spec fn is_default(r: String) -> bool {
        r@ == Seq::<char>::empty()
    }

    fn default() -> (r: String) {
        String::new()
    }
}

/// Lists, blobs and ordered maps (held as lists of entries) default to empty.
impl<E> ErrorCorrectionDefault for Vec<E> {
    open spec fn is_default(r: Vec<E>) -> bool {
        r@.len() == 0
    }

    fn default() -> (r: Vec<E>) {
        Vec::new()
    }
}

/// A boxed value defaults to a box around the default of its contents.
impl<E: ErrorCorrectionDefault> ErrorCorrectionDefault for Box<E> {
    open spec fn is_default(r: Box<E>) -> bool {
        E::is_default(*r)
    }

    fn default() -> (r: Box<E>) {
        Box::new(E::default())
    }
}

impl ErrorCorrectionDefault for Document {
    open spec fn is_default(r: Document) -> bool {
        &&& r.value == DefaultDocumentValue::Null
        &&& r.discriminator is None
        &&& r.schema.spec_shape_type() == ShapeType::Document
        &&& r.schema.spec_id() == shape_id_of_parts(
            "smithy.api"@,
            prelude_type_name(ShapeType::Document),
            None,
        )
    }

    fn default() -> (r: Document) {
        Document::null_of(ShapeType::Document)
    }
}

impl<T: ErrorCorrection> ErrorCorrection for Option<T> {
    type Value = Option<T::Value>;

    fn correct(self) -> (r: Option<T::Value>)
        ensures
            self is None ==> r is None,
            self matches Some(b) ==> r matches Some(v) && call_ensures(T::correct, (b,), v),
    {
        match self {
            Some(b) => Some(b.correct()),
            None => None,
        }
    }
}

/// A boxed builder is corrected to a box around its corrected value.
impl<E: ErrorCorrection> ErrorCorrection for Box<E> {
    type Value = Box<E::Value>;

    fn correct(self) -> (r: Box<E::Value>)
        ensures
            call_ensures(E::correct, (*self,), *r),
    {
        Box::new((*self).correct())
    }
}

/// A list of builders is corrected element by element, in order.
impl<B: ErrorCorrection> ErrorCorrection for Vec<B> {
    type Value = Vec<B::Value>;

    fn correct(self) -> (r: Vec<B::Value>)
        ensures
            r@.len() == self@.len(),
            forall|i: int| 0 <= i < self@.len() ==> call_ensures(B::correct, (self@[i],), #[trigger] r@[i]),
    {
        let ghost orig = self@;
        let mut rest = self;
        let mut out: Vec<B::Value> = Vec::new();
        let ghost n = orig.len();
        while rest.len() > 0
            invariant
                out@.len() + rest@.len() == n,
                n == orig.len(),
                rest@ == orig.subrange(out@.len() as int, n as int),
                forall|i: int| 0 <= i < out@.len() ==> call_ensures(B::correct, (orig[i],), #[trigger] out@[i]),
            decreases rest@.len(),
        {
            let b = rest.remove(0);
            proof {
                assert(rest@ =~= orig.subrange(out@.len() as int + 1, n as int));
            }
            let v = b.correct();
            out.push(v);
        }
        out
    }
}

} // verus!
