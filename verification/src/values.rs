//! The value of a shape as a schema-guided serializer sees it.
//!
//! A shape is written against a schema as a tree of calls: a structure writes each of
//! its members with the member's schema, a list writes its elements with the list's
//! `member` schema, a map writes each key and value with the `key` and `value`
//! schemas. `ShapeValue` is that tree, so that validation and formatting are functions
//! of a schema and a value.
use vstd::prelude::*;

use crate::documents::Document;
use crate::numbers::{Decimal, Timestamp};
use crate::schema::SchemaRef;

verus! {

/// A value written against a schema.
pub enum ShapeValue {
    Boolean(bool),
    Byte(i8),
    Short(i16),
    Integer(i32),
    Long(i64),
    /// A `float`: its IEEE-754 bit pattern and its decimal text, as `Display` shows it.
    Float(u32, String),
    /// A `double`: its IEEE-754 bit pattern and its decimal text, as `Display` shows it.
    Double(u64, String),
    BigInteger(i128),
    BigDecimal(Decimal),
    String(String),
    Blob(Vec<u8>),
    Timestamp(Timestamp),
    Document(Document),
    /// Elements, each written with the list's `member` schema.
    List(Vec<ShapeValue>),
    /// Entries, written with the map's `key` and `value` schemas.
    MapValue(Vec<(ShapeValue, ShapeValue)>),
    /// Members, each written with its member schema.
    Struct(Vec<(SchemaRef, ShapeValue)>),
    /// An explicit null.
    Null,
    /// A required value that was never set.
    Missing,
    /// A value that is not written.
    Skip,
}

} // verus!
