//! Documents: a protocol-agnostic view of untyped data of the Smithy data model.
//!
//! A document holds a value together with the schema it was created with, so that
//! traits such as `@sensitive` or `@jsonName` stay available, and an optional
//! discriminator naming the type of the enclosed shape.
use vstd::prelude::*;

use crate::numbers::{decimal_less, decimal_lt, Decimal, Timestamp};
use crate::prelude::prelude_shape_id;
use crate::refs::share;
use crate::schema::{scalar_built, Schema, SchemaRef};
use crate::shapes::{ShapeId, ShapeType};
use crate::text::{owned, str_eq};

verus! {

/// Integer numbers of the Smithy data model.
#[derive(Debug, Clone, Copy, PartialEq, Eq, Structural)]
pub enum NumberInteger {
    Byte(i8),
    Short(i16),
    Integer(i32),
    Long(i64),
    BigInt(i128),
}

/// Floating-point numbers of the Smithy data model; `float` and `double` are kept
/// as their IEEE-754 bit patterns.
#[derive(Debug, Clone, Copy, PartialEq, Eq, Structural)]
pub enum NumberFloat {
    Float(u32),
    Double(u64),
    BigDecimal(Decimal),
}

/// Numbers of the Smithy data model.
#[derive(Debug, Clone, Copy, PartialEq, Eq, Structural)]
pub enum NumberValue {
    Integer(NumberInteger),
    Float(NumberFloat),
}

impl NumberValue {
    /// A `byte` number.
    pub fn from_i8(value: i8) -> (r: NumberValue)
        ensures
            r == NumberValue::Integer(NumberInteger::Byte(value)),
    {
        NumberValue::Integer(NumberInteger::Byte(value))
    }

    /// A `short` number.
    pub fn from_i16(value: i16) -> (r: NumberValue)
        ensures
            r == NumberValue::Integer(NumberInteger::Short(value)),
    {
        NumberValue::Integer(NumberInteger::Short(value))
    }

    /// An `integer` number.
    pub fn from_i32(value: i32) -> (r: NumberValue)
        ensures
            r == NumberValue::Integer(NumberInteger::Integer(value)),
    {
        NumberValue::Integer(NumberInteger::Integer(value))
    }

    /// A `long` number.
    pub fn from_i64(value: i64) -> (r: NumberValue)
        ensures
            r == NumberValue::Integer(NumberInteger::Long(value)),
    {
        NumberValue::Integer(NumberInteger::Long(value))
    }

    /// A `bigInteger` number.
    pub fn from_big_int(value: i128) -> (r: NumberValue)
        ensures
            r == NumberValue::Integer(NumberInteger::BigInt(value)),
    {
        NumberValue::Integer(NumberInteger::BigInt(value))
    }

    /// A `bigDecimal` number.
    pub fn from_big_decimal(value: Decimal) -> (r: NumberValue)
        ensures
            r == NumberValue::Float(NumberFloat::BigDecimal(value)),
    {
        NumberValue::Float(NumberFloat::BigDecimal(value))
    }
}

/// The mathematical value of an integer number.
pub open spec fn integer_value(n: NumberInteger) -> int {
    match n {
        NumberInteger::Byte(v) => v as int,
        NumberInteger::Short(v) => v as int,
        NumberInteger::Integer(v) => v as int,
        NumberInteger::Long(v) => v as int,
        NumberInteger::BigInt(v) => v as int,
    }
}

/// The value of a document.
pub enum DefaultDocumentValue {
    Null,
    Number(NumberValue),
    Boolean(bool),
    Blob(Vec<u8>),
    String(String),
    Timestamp(Timestamp),
    List(Vec<Document>),
    MapValue(Vec<(String, Document)>),
}

/// A Smithy document: untyped data together with the schema it was created with.
pub struct Document {
    pub schema: SchemaRef,
    pub value: DefaultDocumentValue,
    pub discriminator: Option<ShapeId>,
}

/// Errors that can occur when converting to or from a document.
pub enum DocumentError {
    DocumentSerialization(String),
    DocumentConversion(String),
    Unknown,
    CustomError(String),
    Default,
}

/// The message of a document error.
pub open spec fn document_error_message(e: DocumentError) -> Seq<char> {
    match e {
        DocumentError::DocumentSerialization(s) => "Failed to convert document to type "@ + s@,
        DocumentError::DocumentConversion(s) => "Failed to convert document to type "@ + s@,
        DocumentError::Unknown => "Encountered unknown error"@,
        DocumentError::CustomError(s) => "Encountered error: "@ + s@,
        DocumentError::Default => "Whooopsie"@,
    }
}

impl DocumentError {
    /// The message of the error.
    pub fn message(&self) -> (r: String)
        ensures
            r@ == document_error_message(*self),
    {
        proof {
            reveal_strlit("Failed to convert document to type ");
            reveal_strlit("Encountered unknown error");
            reveal_strlit("Encountered error: ");
            reveal_strlit("Whooopsie");
        }
        match self {
            DocumentError::DocumentSerialization(s) => owned(
                "Failed to convert document to type ",
            ).concat(s.as_str()),
            DocumentError::DocumentConversion(s) => owned(
                "Failed to convert document to type ",
            ).concat(s.as_str()),
            DocumentError::Unknown => owned("Encountered unknown error"),
            DocumentError::CustomError(s) => owned("Encountered error: ").concat(s.as_str()),
            DocumentError::Default => owned("Whooopsie"),
        }
    }

    /// The default error.
    pub fn default() -> (r: DocumentError)
        ensures
            r is Default,
    {
        DocumentError::Default
    }

    /// A custom error with the given message.
    pub fn custom(msg: &str) -> (r: DocumentError)
        ensures
            r matches DocumentError::CustomError(s) && s@ == msg@,
    {
        DocumentError::CustomError(owned(msg))
    }
}

/// The error returned when a document does not hold the expected kind of value.
pub open spec fn is_conversion_error(e: DocumentError, expected: Seq<char>) -> bool {
    e matches DocumentError::DocumentConversion(s) && s@ == expected
}

fn conversion_error(expected: &str) -> (r: DocumentError)
    ensures
        is_conversion_error(r, expected@),
{
    DocumentError::DocumentConversion(owned(expected))
}

/// The shape type of the data a document value holds; `None` for null.
pub open spec fn value_type(v: DefaultDocumentValue) -> Option<ShapeType> {
    match v {
        DefaultDocumentValue::Number(NumberValue::Integer(n)) => Some(
            match n {
                NumberInteger::Byte(_) => ShapeType::Byte,
                NumberInteger::Short(_) => ShapeType::Short,
                NumberInteger::Integer(_) => ShapeType::Integer,
                NumberInteger::Long(_) => ShapeType::Long,
                NumberInteger::BigInt(_) => ShapeType::BigInteger,
            },
        ),
        DefaultDocumentValue::Number(NumberValue::Float(f)) => Some(
            match f {
                NumberFloat::Float(_) => ShapeType::Float,
                NumberFloat::Double(_) => ShapeType::Double,
                NumberFloat::BigDecimal(_) => ShapeType::BigDecimal,
            },
        ),
        DefaultDocumentValue::Boolean(_) => Some(ShapeType::Boolean),
        DefaultDocumentValue::Blob(_) => Some(ShapeType::Blob),
        DefaultDocumentValue::String(_) => Some(ShapeType::String),
        DefaultDocumentValue::Timestamp(_) => Some(ShapeType::Timestamp),
        DefaultDocumentValue::List(_) => Some(ShapeType::List),
        DefaultDocumentValue::MapValue(_) => Some(ShapeType::MapType),
        DefaultDocumentValue::Null => None,
    }
}

/// The integer a document holds, when it holds an integer number in `[lo, hi]`.
pub open spec fn integer_in(v: DefaultDocumentValue, lo: int, hi: int) -> Option<int> {
    match v {
        DefaultDocumentValue::Number(NumberValue::Integer(n)) => if lo <= integer_value(n) <= hi {
            Some(integer_value(n))
        } else {
            None
        },
        _ => None,
    }
}

/// The number of elements of a list, or of entries of a map; 0 for other values.
pub open spec fn value_size(v: DefaultDocumentValue) -> nat {
    match v {
        DefaultDocumentValue::List(l) => l@.len(),
        DefaultDocumentValue::MapValue(m) => m@.len(),
        _ => 0,
    }
}

impl DefaultDocumentValue {
    /// The shape type of the data this value holds; `None` for null.
    ///
    /// Enums are held as strings and int enums as integers.
    pub fn get_type(&self) -> (r: Option<ShapeType>)
        ensures
            r == value_type(*self),
    {
        match self {
            DefaultDocumentValue::Number(n) => match n {
                NumberValue::Integer(i) => match i {
                    NumberInteger::Byte(_) => Some(ShapeType::Byte),
                    NumberInteger::Short(_) => Some(ShapeType::Short),
                    NumberInteger::Integer(_) => Some(ShapeType::Integer),
                    NumberInteger::Long(_) => Some(ShapeType::Long),
                    NumberInteger::BigInt(_) => Some(ShapeType::BigInteger),
                },
                NumberValue::Float(f) => match f {
                    NumberFloat::Float(_) => Some(ShapeType::Float),
                    NumberFloat::Double(_) => Some(ShapeType::Double),
                    NumberFloat::BigDecimal(_) => Some(ShapeType::BigDecimal),
                },
            },
            DefaultDocumentValue::Boolean(_) => Some(ShapeType::Boolean),
            DefaultDocumentValue::Blob(_) => Some(ShapeType::Blob),
            DefaultDocumentValue::String(_) => Some(ShapeType::String),
            DefaultDocumentValue::Timestamp(_) => Some(ShapeType::Timestamp),
            DefaultDocumentValue::List(_) => Some(ShapeType::List),
            DefaultDocumentValue::MapValue(_) => Some(ShapeType::MapType),
            DefaultDocumentValue::Null => None,
        }
    }

    /// The number of elements of a list, or of entries of a map; 0 for other values.
    pub fn size(&self) -> (r: usize)
        ensures
            r == value_size(*self),
    {
        match self {
            DefaultDocumentValue::List(v) => v.len(),
            DefaultDocumentValue::MapValue(v) => v.len(),
            _ => 0,
        }
    }

    /// The bytes of a blob.
    pub fn as_blob(&self) -> (r: Option<&Vec<u8>>)
        ensures
            match self {
                DefaultDocumentValue::Blob(b) => r == Some(b),
                _ => r is None,
            },
    {
        if let DefaultDocumentValue::Blob(b) = self {
            Some(b)
        } else {
            None
        }
    }

    /// The value of a boolean.
    pub fn as_bool(&self) -> (r: Option<bool>)
        ensures
            match self {
                DefaultDocumentValue::Boolean(b) => r == Some(*b),
                _ => r is None,
            },
    {
        if let DefaultDocumentValue::Boolean(b) = self {
            Some(*b)
        } else {
            None
        }
    }

    /// The text of a string.
    pub fn as_string(&self) -> (r: Option<&str>)
        ensures
            match self {
                DefaultDocumentValue::String(s) => r is Some && r.unwrap()@ == s@,
                _ => r is None,
            },
    {
        if let DefaultDocumentValue::String(s) = self {
            Some(s.as_str())
        } else {
            None
        }
    }

    /// The instant of a timestamp.
    pub fn as_timestamp(&self) -> (r: Option<Timestamp>)
        ensures
            match self {
                DefaultDocumentValue::Timestamp(t) => r == Some(*t),
                _ => r is None,
            },
    {
        if let DefaultDocumentValue::Timestamp(t) = self {
            Some(*t)
        } else {
            None
        }
    }

    /// The value as a `byte`, when the document holds an integer number that fits.
    pub fn as_byte(&self) -> (r: Option<i8>)
        ensures
            match r {
                Some(v) => integer_in(*self, i8::MIN as int, i8::MAX as int) == Some(v as int),
                None => integer_in(*self, i8::MIN as int, i8::MAX as int) is None,
            },
    {
        match self {
            DefaultDocumentValue::Number(NumberValue::Integer(ni)) => match ni {
                NumberInteger::Byte(b) => Some(*b),
                NumberInteger::Short(s) => if -128 <= *s && *s <= 127 {
                    Some(*s as i8)
                } else {
                    None
                },
                NumberInteger::Integer(i) => if -128 <= *i && *i <= 127 {
                    Some(*i as i8)
                } else {
                    None
                },
                NumberInteger::Long(l) => if -128 <= *l && *l <= 127 {
                    Some(*l as i8)
                } else {
                    None
                },
                NumberInteger::BigInt(b) => if -128 <= *b && *b <= 127 {
                    Some(*b as i8)
                } else {
                    None
                },
            },
            _ => None,
        }
    }

    /// The value as a `short`, when the document holds an integer number that fits.
    pub fn as_short(&self) -> (r: Option<i16>)
        ensures
            match r {
                Some(v) => integer_in(*self, i16::MIN as int, i16::MAX as int) == Some(v as int),
                None => integer_in(*self, i16::MIN as int, i16::MAX as int) is None,
            },
    {
        match self {
            DefaultDocumentValue::Number(NumberValue::Integer(ni)) => match ni {
                NumberInteger::Byte(b) => Some(*b as i16),
                NumberInteger::Short(s) => Some(*s),
                NumberInteger::Integer(i) => if -32768 <= *i && *i <= 32767 {
                    Some(*i as i16)
                } else {
                    None
                },
                NumberInteger::Long(l) => if -32768 <= *l && *l <= 32767 {
                    Some(*l as i16)
                } else {
                    None
                },
                NumberInteger::BigInt(b) => if -32768 <= *b && *b <= 32767 {
                    Some(*b as i16)
                } else {
                    None
                },
            },
            _ => None,
        }
    }

    /// The value as an `integer`, when the document holds an integer number that fits.
    pub fn as_integer(&self) -> (r: Option<i32>)
        ensures
            match r {
                Some(v) => integer_in(*self, i32::MIN as int, i32::MAX as int) == Some(v as int),
                None => integer_in(*self, i32::MIN as int, i32::MAX as int) is None,
            },
    {
        match self {
            DefaultDocumentValue::Number(NumberValue::Integer(ni)) => match ni {
                NumberInteger::Byte(b) => Some(*b as i32),
                NumberInteger::Short(s) => Some(*s as i32),
                NumberInteger::Integer(i) => Some(*i),
                NumberInteger::Long(l) => if -2147483648 <= *l && *l <= 2147483647 {
                    Some(*l as i32)
                } else {
                    None
                },
                NumberInteger::BigInt(b) => if -2147483648 <= *b && *b <= 2147483647 {
                    Some(*b as i32)
                } else {
                    None
                },
            },
            _ => None,
        }
    }

    /// The value as a `long`, when the document holds an integer number that fits.
    pub fn as_long(&self) -> (r: Option<i64>)
        ensures
            match r {
                Some(v) => integer_in(*self, i64::MIN as int, i64::MAX as int) == Some(v as int),
                None => integer_in(*self, i64::MIN as int, i64::MAX as int) is None,
            },
    {
        match self {
            DefaultDocumentValue::Number(NumberValue::Integer(ni)) => match ni {
                NumberInteger::Byte(b) => Some(*b as i64),
                NumberInteger::Short(s) => Some(*s as i64),
                NumberInteger::Integer(i) => Some(*i as i64),
                NumberInteger::Long(l) => Some(*l),
                NumberInteger::BigInt(b) => if -9223372036854775808 <= *b && *b
                    <= 9223372036854775807 {
                    Some(*b as i64)
                } else {
                    None
                },
            },
            _ => None,
        }
    }

    /// The value as a `bigInteger`, when the document holds an integer number.
    pub fn as_big_integer(&self) -> (r: Option<i128>)
        ensures
            match r {
                Some(v) => integer_in(*self, i128::MIN as int, i128::MAX as int) == Some(v as int),
                None => integer_in(*self, i128::MIN as int, i128::MAX as int) is None,
            },
    {
        match self {
            DefaultDocumentValue::Number(NumberValue::Integer(ni)) => match ni {
                NumberInteger::Byte(b) => Some(*b as i128),
                NumberInteger::Short(s) => Some(*s as i128),
                NumberInteger::Integer(i) => Some(*i as i128),
                NumberInteger::Long(l) => Some(*l as i128),
                NumberInteger::BigInt(b) => Some(*b),
            },
            _ => None,
        }
    }

    /// The value of a `bigDecimal`.
    pub fn as_big_decimal(&self) -> (r: Option<Decimal>)
        ensures
            match self {
                DefaultDocumentValue::Number(NumberValue::Float(NumberFloat::BigDecimal(d))) => r
                    == Some(*d),
                _ => r is None,
            },
    {
        if let DefaultDocumentValue::Number(NumberValue::Float(NumberFloat::BigDecimal(d))) = self {
            Some(*d)
        } else {
            None
        }
    }

    /// The elements of a list.
    pub fn as_list(&self) -> (r: Option<&Vec<Document>>)
        ensures
            match self {
                DefaultDocumentValue::List(l) => r == Some(l),
                _ => r is None,
            },
    {
        if let DefaultDocumentValue::List(l) = self {
            Some(l)
        } else {
            None
        }
    }

    /// The entries of a map.
    pub fn as_map(&self) -> (r: Option<&Vec<(String, Document)>>)
        ensures
            match self {
                DefaultDocumentValue::MapValue(m) => r == Some(m),
                _ => r is None,
            },
    {
        if let DefaultDocumentValue::MapValue(m) = self {
            Some(m)
        } else {
            None
        }
    }

    /// Whether the value is null.
    pub fn is_null(&self) -> (r: bool)
        ensures
            r == (*self is Null),
    {
        matches!(self, DefaultDocumentValue::Null)
    }

    /// Converts into the bytes of a blob.
    pub fn into_blob(self) -> (r: Result<Vec<u8>, DocumentError>)
        ensures
            match self {
                DefaultDocumentValue::Blob(b) => r == Ok::<Vec<u8>, DocumentError>(b),
                _ => r matches Err(e) && is_conversion_error(e, "Expected blob document"@),
            },
    {
        if let DefaultDocumentValue::Blob(b) = self {
            Ok(b)
        } else {
            Err(conversion_error("Expected blob document"))
        }
    }

    /// Converts into a boolean.
    pub fn into_bool(self) -> (r: Result<bool, DocumentError>)
        ensures
            match self {
                DefaultDocumentValue::Boolean(b) => r == Ok::<bool, DocumentError>(b),
                _ => r matches Err(e) && is_conversion_error(e, "Expected boolean document"@),
            },
    {
        if let DefaultDocumentValue::Boolean(b) = self {
            Ok(b)
        } else {
            Err(conversion_error("Expected boolean document"))
        }
    }

    /// Converts into a string.
    pub fn into_string(self) -> (r: Result<String, DocumentError>)
        ensures
            match self {
                DefaultDocumentValue::String(s) => r == Ok::<String, DocumentError>(s),
                _ => r matches Err(e) && is_conversion_error(e, "Expected string document"@),
            },
    {
        if let DefaultDocumentValue::String(s) = self {
            Ok(s)
        } else {
            Err(conversion_error("Expected string document"))
        }
    }

    /// Converts into a timestamp.
    pub fn into_timestamp(self) -> (r: Result<Timestamp, DocumentError>)
        ensures
            match self {
                DefaultDocumentValue::Timestamp(t) => r == Ok::<Timestamp, DocumentError>(t),
                _ => r matches Err(e) && is_conversion_error(e, "Expected timestamp document"@),
            },
    {
        if let DefaultDocumentValue::Timestamp(t) = self {
            Ok(t)
        } else {
            Err(conversion_error("Expected timestamp document"))
        }
    }

    /// Converts into a `byte`, when the value holds an integer number that fits.
    pub fn into_byte(self) -> (r: Result<i8, DocumentError>)
        ensures
            match r {
                Ok(v) => integer_in(self, i8::MIN as int, i8::MAX as int) == Some(v as int),
                Err(e) => integer_in(self, i8::MIN as int, i8::MAX as int) is None
                    && is_conversion_error(e, "Expected byte document"@),
            },
    {
        match self.as_byte() {
            Some(v) => Ok(v),
            None => Err(conversion_error("Expected byte document")),
        }
    }

    /// Converts into a `short`, when the value holds an integer number that fits.
    pub fn into_short(self) -> (r: Result<i16, DocumentError>)
        ensures
            match r {
                Ok(v) => integer_in(self, i16::MIN as int, i16::MAX as int) == Some(v as int),
                Err(e) => integer_in(self, i16::MIN as int, i16::MAX as int) is None
                    && is_conversion_error(e, "Expected short document"@),
            },
    {
        match self.as_short() {
            Some(v) => Ok(v),
            None => Err(conversion_error("Expected short document")),
        }
    }

    /// Converts into an `integer`, when the value holds an integer number that fits.
    pub fn into_integer(self) -> (r: Result<i32, DocumentError>)
        ensures
            match r {
                Ok(v) => integer_in(self, i32::MIN as int, i32::MAX as int) == Some(v as int),
                Err(e) => integer_in(self, i32::MIN as int, i32::MAX as int) is None
                    && is_conversion_error(e, "Expected integer document"@),
            },
    {
        match self.as_integer() {
            Some(v) => Ok(v),
            None => Err(conversion_error("Expected integer document")),
        }
    }

    /// Converts into a `long`, when the value holds an integer number that fits.
    pub fn into_long(self) -> (r: Result<i64, DocumentError>)
        ensures
            match r {
                Ok(v) => integer_in(self, i64::MIN as int, i64::MAX as int) == Some(v as int),
                Err(e) => integer_in(self, i64::MIN as int, i64::MAX as int) is None
                    && is_conversion_error(e, "Expected long document"@),
            },
    {
        match self.as_long() {
            Some(v) => Ok(v),
            None => Err(conversion_error("Expected long document")),
        }
    }

    /// Converts into a `bigInteger`, when the value holds an integer number.
    pub fn into_big_integer(self) -> (r: Result<i128, DocumentError>)
        ensures
            match r {
                Ok(v) => integer_in(self, i128::MIN as int, i128::MAX as int) == Some(v as int),
                Err(e) => integer_in(self, i128::MIN as int, i128::MAX as int) is None
                    && is_conversion_error(e, "Expected bigInteger document"@),
            },
    {
        match self.as_big_integer() {
            Some(v) => Ok(v),
            None => Err(conversion_error("Expected bigInteger document")),
        }
    }

    /// Converts into a `bigDecimal`.
    pub fn into_big_decimal(self) -> (r: Result<Decimal, DocumentError>)
        ensures
            match self {
                DefaultDocumentValue::Number(NumberValue::Float(NumberFloat::BigDecimal(d))) => r
                    == Ok::<Decimal, DocumentError>(d),
                _ => r matches Err(e) && is_conversion_error(e, "Expected bigInteger document"@),
            },
    {
        match self.as_big_decimal() {
            Some(v) => Ok(v),
            None => Err(conversion_error("Expected bigInteger document")),
        }
    }

    /// Converts into the elements of a list.
    pub fn into_list(self) -> (r: Result<Vec<Document>, DocumentError>)
        ensures
            match self {
                DefaultDocumentValue::List(l) => r == Ok::<Vec<Document>, DocumentError>(l),
                _ => r matches Err(e) && is_conversion_error(e, "Expected list document"@),
            },
    {
        if let DefaultDocumentValue::List(l) = self {
            Ok(l)
        } else {
            Err(conversion_error("Expected list document"))
        }
    }

    /// Converts into the entries of a map.
    pub fn into_map(self) -> (r: Result<Vec<(String, Document)>, DocumentError>)
        ensures
            match self {
                DefaultDocumentValue::MapValue(m) => r == Ok::<Vec<(String, Document)>, DocumentError>(
                    m,
                ),
                _ => r matches Err(e) && is_conversion_error(e, "Expected map document"@),
            },
    {
        if let DefaultDocumentValue::MapValue(m) = self {
            Ok(m)
        } else {
            Err(conversion_error("Expected map document"))
        }
    }
}

} // verus!

verus! {

/// `b` is the bit pattern of a NaN `f32`.
pub open spec fn f32_is_nan(b: u32) -> bool {
    (b / 0x80_0000) % 0x100 == 0xff && b % 0x80_0000 != 0
}

/// `==` on the `f32` values with bit patterns `a` and `b`: NaN equals nothing, and the
/// two zeros are equal.
pub open spec fn f32_eq(a: u32, b: u32) -> bool {
    !f32_is_nan(a) && !f32_is_nan(b) && (a == b || (a % 0x8000_0000 == 0 && b % 0x8000_0000 == 0))
}

/// `b` is the bit pattern of a NaN `f64`.
pub open spec fn f64_is_nan(b: u64) -> bool {
    (b / 0x10_0000_0000_0000) % 0x800 == 0x7ff && b % 0x10_0000_0000_0000 != 0
}

/// `==` on the `f64` values with bit patterns `a` and `b`.
pub open spec fn f64_eq(a: u64, b: u64) -> bool {
    !f64_is_nan(a) && !f64_is_nan(b) && (a == b || (a % 0x8000_0000_0000_0000 == 0 && b
        % 0x8000_0000_0000_0000 == 0))
}

/// Numeric equality of decimals.
pub open spec fn decimal_eq(a: Decimal, b: Decimal) -> bool {
    !decimal_lt(a, b) && !decimal_lt(b, a)
}

/// The value stored first under `key` in `entries`.
pub open spec fn entry_value(entries: Seq<(String, Document)>, key: Seq<char>) -> Option<Document>
    decreases entries.len(),
{
    if entries.len() == 0 {
        None
    } else if entries[0].0@ == key {
        Some(entries[0].1)
    } else {
        entry_value(entries.drop_first(), key)
    }
}

/// Equality of two shape ids, field by field.
pub open spec fn discriminator_eq(a: Option<ShapeId>, b: Option<ShapeId>) -> bool {
    match (a, b) {
        (Some(x), Some(y)) => x@ == y@,
        (None, None) => true,
        _ => false,
    }
}

/// Equality of documents: same schema id, same discriminator and equal values.
///
/// Values of different types are never equal. Numbers compare by their type's `==`,
/// any two lists compare equal, and two maps are equal when they have as many
/// entries and each entry of the first has an equal value under its key in the second.
pub open spec fn doc_eq(a: Document, b: Document) -> bool
    decreases a, 1int, 0int,
{
    &&& a.schema.spec_id() == b.schema.spec_id()
    &&& discriminator_eq(a.discriminator, b.discriminator)
    &&& value_eq(a.value, b.value)
}

/// Equality of document values: values of different types are never equal; numbers
/// compare by their type's `==` (NaN equals nothing, the two zeros are equal, decimals
/// compare numerically), strings, blobs, booleans and timestamps by value, any two
/// lists compare equal, two maps are equal when they have as many entries and each
/// entry of the first has an equal document under its key in the second, and null
/// equals null.
pub open spec fn value_eq(v: DefaultDocumentValue, w: DefaultDocumentValue) -> bool
    decreases v, 1int, 0int,
{
    match (v, w) {
        (DefaultDocumentValue::String(x), DefaultDocumentValue::String(y)) => x@ == y@,
        (DefaultDocumentValue::Blob(x), DefaultDocumentValue::Blob(y)) => x@ == y@,
        (DefaultDocumentValue::Boolean(x), DefaultDocumentValue::Boolean(y)) => x == y,
        (DefaultDocumentValue::Timestamp(x), DefaultDocumentValue::Timestamp(y)) => x == y,
        (DefaultDocumentValue::Number(x), DefaultDocumentValue::Number(y)) => match (x, y) {
            (NumberValue::Integer(NumberInteger::Byte(p)), NumberValue::Integer(NumberInteger::Byte(q))) => p == q,
            (NumberValue::Integer(NumberInteger::Short(p)), NumberValue::Integer(NumberInteger::Short(q))) => p == q,
            (NumberValue::Integer(NumberInteger::Integer(p)), NumberValue::Integer(NumberInteger::Integer(q))) => p == q,
            (NumberValue::Integer(NumberInteger::Long(p)), NumberValue::Integer(NumberInteger::Long(q))) => p == q,
            (NumberValue::Integer(NumberInteger::BigInt(p)), NumberValue::Integer(NumberInteger::BigInt(q))) => p == q,
            (NumberValue::Float(NumberFloat::Float(p)), NumberValue::Float(NumberFloat::Float(q))) => f32_eq(p, q),
            (NumberValue::Float(NumberFloat::Double(p)), NumberValue::Float(NumberFloat::Double(q))) => f64_eq(p, q),
            (NumberValue::Float(NumberFloat::BigDecimal(p)), NumberValue::Float(NumberFloat::BigDecimal(q))) => decimal_eq(p, q),
            _ => false,
        },
        (DefaultDocumentValue::List(_), DefaultDocumentValue::List(_)) => true,
        (DefaultDocumentValue::MapValue(x), DefaultDocumentValue::MapValue(y)) => x@.len() == y@.len()
            && entries_eq(x@, y@, 0),
        (DefaultDocumentValue::Null, DefaultDocumentValue::Null) => true,
        _ => false,
    }
}

/// Each entry of `x` from position `i` on has an equal value under its key in `y`.
pub open spec fn entries_eq(x: Seq<(String, Document)>, y: Seq<(String, Document)>, i: int) -> bool
    decreases x, 0int, x.len() - i,
{
    if 0 <= i < x.len() {
        &&& match entry_value(y, x[i].0@) {
            Some(v) => doc_eq(x[i].1, v),
            None => false,
        }
        &&& entries_eq(x, y, i + 1)
    } else {
        true
    }
}

} // verus!

verus! {

fn f32_equal(a: u32, b: u32) -> (r: bool)
    ensures
        r == f32_eq(a, b),
{
    let a_nan = (a / 0x80_0000) % 0x100 == 0xff && a % 0x80_0000 != 0;
    let b_nan = (b / 0x80_0000) % 0x100 == 0xff && b % 0x80_0000 != 0;
    !a_nan && !b_nan && (a == b || (a % 0x8000_0000 == 0 && b % 0x8000_0000 == 0))
}

fn f64_equal(a: u64, b: u64) -> (r: bool)
    ensures
        r == f64_eq(a, b),
{
    let a_nan = (a / 0x10_0000_0000_0000) % 0x800 == 0x7ff && a % 0x10_0000_0000_0000 != 0;
    let b_nan = (b / 0x10_0000_0000_0000) % 0x800 == 0x7ff && b % 0x10_0000_0000_0000 != 0;
    !a_nan && !b_nan && (a == b || (a % 0x8000_0000_0000_0000 == 0 && b % 0x8000_0000_0000_0000
        == 0))
}

fn bytes_equal(a: &Vec<u8>, b: &Vec<u8>) -> (r: bool)
    ensures
        r == (a@ == b@),
{
    if a.len() != b.len() {
        return false;
    }
    let mut i: usize = 0;
    while i < a.len()
        invariant
            i <= a@.len(),
            a@.len() == b@.len(),
            forall|j: int| 0 <= j < i ==> a@[j] == b@[j],
        decreases a@.len() - i,
    {
        if a[i] != b[i] {
            return false;
        }
        i = i + 1;
    }
    assert(a@ =~= b@);
    true
}

fn find_entry<'a>(entries: &'a Vec<(String, Document)>, key: &str) -> (r: Option<&'a Document>)
    ensures
        match r {
            Some(d) => entry_value(entries@, key@) == Some(*d),
            None => entry_value(entries@, key@) is None,
        },
{
    let mut i: usize = 0;
    assert(entries@.subrange(0, entries@.len() as int) =~= entries@);
    while i < entries.len()
        invariant
            i <= entries@.len(),
            entry_value(entries@, key@) == entry_value(entries@.subrange(i as int, entries@.len() as int), key@),
        decreases entries@.len() - i,
    {
        let ghost rest = entries@.subrange(i as int, entries@.len() as int);
        assert(rest.drop_first() =~= entries@.subrange(i + 1, entries@.len() as int));
        if str_eq(entries[i].0.as_str(), key) {
            return Some(&entries[i].1);
        }
        i = i + 1;
    }
    None
}

fn ids_equal(a: &ShapeId, b: &ShapeId) -> (r: bool)
    ensures
        r == (a@ == b@),
{
    let same_member = match (&a.member, &b.member) {
        (Some(x), Some(y)) => str_eq(x.as_str(), y.as_str()),
        (None, None) => true,
        _ => false,
    };
    str_eq(a.id.as_str(), b.id.as_str()) && str_eq(a.namespace.as_str(), b.namespace.as_str())
        && str_eq(a.name.as_str(), b.name.as_str()) && same_member
}

/// The entry at `j` of `x` has an equal value under its key in `y`.
pub open spec fn entry_matches(x: Seq<(String, Document)>, y: Seq<(String, Document)>, j: int) -> bool {
    match entry_value(y, x[j].0@) {
        Some(v) => doc_eq(x[j].1, v),
        None => false,
    }
}

proof fn lemma_entries_eq(x: Seq<(String, Document)>, y: Seq<(String, Document)>, i: int)
    requires
        0 <= i <= x.len(),
    ensures
        entries_eq(x, y, i) <==> forall|j: int| i <= j < x.len() ==> #[trigger] entry_matches(x, y, j),
    decreases x.len() - i,
{
    if i < x.len() {
        lemma_entries_eq(x, y, i + 1);
        assert(entries_eq(x, y, i) == (entry_matches(x, y, i) && entries_eq(x, y, i + 1)));
    }
}

fn entries_equal(x: &Vec<(String, Document)>, y: &Vec<(String, Document)>) -> (r: bool)
    ensures
        r == entries_eq(x@, y@, 0),
    decreases x, 0int,
{
    proof {
        lemma_entries_eq(x@, y@, 0);
    }
    let mut i: usize = 0;
    while i < x.len()
        invariant
            i <= x@.len(),
            entries_eq(x@, y@, 0) <==> forall|j: int| 0 <= j < x@.len() ==> #[trigger] entry_matches(x@, y@, j),
            forall|j: int| 0 <= j < i ==> #[trigger] entry_matches(x@, y@, j),
        decreases x@.len() - i,
    {
        let ok = match find_entry(y, x[i].0.as_str()) {
            Some(v) => x[i].1.equals(v),
            None => false,
        };
        if !ok {
            assert(!entry_matches(x@, y@, i as int));
            return false;
        }
        i = i + 1;
    }
    true
}

impl Document {
    /// Equality of documents: same schema id, same discriminator and equal values.
    pub fn equals(&self, other: &Document) -> (r: bool)
        ensures
            r == doc_eq(*self, *other),
        decreases self, 1int,
    {
        if !ids_equal(self.schema.id(), other.schema.id()) {
            return false;
        }
        let same_discriminator = match (&self.discriminator, &other.discriminator) {
            (Some(a), Some(b)) => ids_equal(a, b),
            (None, None) => true,
            _ => false,
        };
        if !same_discriminator {
            return false;
        }
        self.value.equals(&other.value)
    }
}

impl DefaultDocumentValue {
    /// Equality of document values.
    pub fn equals(&self, other: &DefaultDocumentValue) -> (r: bool)
        ensures
            r == value_eq(*self, *other),
        decreases self, 0int,
    {
        match (self, other) {
            (DefaultDocumentValue::String(x), DefaultDocumentValue::String(y)) => str_eq(x.as_str(), y.as_str()),
            (DefaultDocumentValue::Blob(x), DefaultDocumentValue::Blob(y)) => bytes_equal(x, y),
            (DefaultDocumentValue::Boolean(x), DefaultDocumentValue::Boolean(y)) => *x == *y,
            (DefaultDocumentValue::Timestamp(x), DefaultDocumentValue::Timestamp(y)) => x.epoch_nanos == y.epoch_nanos,
            (DefaultDocumentValue::Number(x), DefaultDocumentValue::Number(y)) => match (x, y) {
                (NumberValue::Integer(NumberInteger::Byte(p)), NumberValue::Integer(NumberInteger::Byte(q))) => *p == *q,
                (NumberValue::Integer(NumberInteger::Short(p)), NumberValue::Integer(NumberInteger::Short(q))) => *p == *q,
                (NumberValue::Integer(NumberInteger::Integer(p)), NumberValue::Integer(NumberInteger::Integer(q))) => *p == *q,
                (NumberValue::Integer(NumberInteger::Long(p)), NumberValue::Integer(NumberInteger::Long(q))) => *p == *q,
                (NumberValue::Integer(NumberInteger::BigInt(p)), NumberValue::Integer(NumberInteger::BigInt(q))) => *p == *q,
                (NumberValue::Float(NumberFloat::Float(p)), NumberValue::Float(NumberFloat::Float(q))) => f32_equal(*p, *q),
                (NumberValue::Float(NumberFloat::Double(p)), NumberValue::Float(NumberFloat::Double(q))) => f64_equal(*p, *q),
                (NumberValue::Float(NumberFloat::BigDecimal(p)), NumberValue::Float(NumberFloat::BigDecimal(q))) => !decimal_less(p, q) && !decimal_less(q, p),
                _ => false,
            },
            (DefaultDocumentValue::List(_), DefaultDocumentValue::List(_)) => true,
            (DefaultDocumentValue::MapValue(x), DefaultDocumentValue::MapValue(y)) => x.len() == y.len() && entries_equal(x, y),
            (DefaultDocumentValue::Null, DefaultDocumentValue::Null) => true,
            _ => false,
        }
    }
}

} // verus!

verus! {

/// `d` holds `v`, without discriminator, under the prelude schema of type `t`.
pub open spec fn prelude_document(d: Document, t: ShapeType, v: DefaultDocumentValue) -> bool {
    &&& d.value == v
    &&& d.discriminator is None
    &&& scalar_built(
        *d.schema,
        t,
        crate::shapes::shape_id_of_parts("smithy.api"@, crate::schema::prelude_type_name(t), None),
        seq![],
    )
}

impl Document {
    fn of_prelude(t: ShapeType, value: DefaultDocumentValue) -> (r: Document)
        requires
            crate::schema::is_prelude_scalar(t),
        ensures
            prelude_document(r, t, value),
    {
        Document { schema: crate::schema::prelude_schema(t), value, discriminator: None }
    }

    /// A document holding a boolean.
    pub fn from_bool(value: bool) -> (r: Document)
        ensures
            prelude_document(r, ShapeType::Boolean, DefaultDocumentValue::Boolean(value)),
    {
        Self::of_prelude(ShapeType::Boolean, DefaultDocumentValue::Boolean(value))
    }

    /// A document holding a `byte`.
    pub fn from_i8(value: i8) -> (r: Document)
        ensures
            prelude_document(r, ShapeType::Byte, DefaultDocumentValue::Number(NumberValue::Integer(NumberInteger::Byte(value)))),
    {
        Self::of_prelude(ShapeType::Byte, DefaultDocumentValue::Number(NumberValue::from_i8(value)))
    }

    /// A document holding a `short`.
    pub fn from_i16(value: i16) -> (r: Document)
        ensures
            prelude_document(r, ShapeType::Short, DefaultDocumentValue::Number(NumberValue::Integer(NumberInteger::Short(value)))),
    {
        Self::of_prelude(ShapeType::Short, DefaultDocumentValue::Number(NumberValue::from_i16(value)))
    }

    /// A document holding an `integer`.
    pub fn from_i32(value: i32) -> (r: Document)
        ensures
            prelude_document(r, ShapeType::Integer, DefaultDocumentValue::Number(NumberValue::Integer(NumberInteger::Integer(value)))),
    {
        Self::of_prelude(ShapeType::Integer, DefaultDocumentValue::Number(NumberValue::from_i32(value)))
    }

    /// A document holding a `long`.
    pub fn from_i64(value: i64) -> (r: Document)
        ensures
            prelude_document(r, ShapeType::Long, DefaultDocumentValue::Number(NumberValue::Integer(NumberInteger::Long(value)))),
    {
        Self::of_prelude(ShapeType::Long, DefaultDocumentValue::Number(NumberValue::from_i64(value)))
    }

    /// A document holding a `float`, given by its bit pattern.
    pub fn from_f32_bits(bits: u32) -> (r: Document)
        ensures
            prelude_document(r, ShapeType::Float, DefaultDocumentValue::Number(NumberValue::Float(NumberFloat::Float(bits)))),
    {
        Self::of_prelude(ShapeType::Float, DefaultDocumentValue::Number(NumberValue::Float(NumberFloat::Float(bits))))
    }

    /// A document holding a `double`, given by its bit pattern.
    pub fn from_f64_bits(bits: u64) -> (r: Document)
        ensures
            prelude_document(r, ShapeType::Double, DefaultDocumentValue::Number(NumberValue::Float(NumberFloat::Double(bits)))),
    {
        Self::of_prelude(ShapeType::Double, DefaultDocumentValue::Number(NumberValue::Float(NumberFloat::Double(bits))))
    }

    /// A document holding a `bigInteger`.
    pub fn from_big_integer(value: i128) -> (r: Document)
        ensures
            prelude_document(r, ShapeType::BigInteger, DefaultDocumentValue::Number(NumberValue::Integer(NumberInteger::BigInt(value)))),
    {
        Self::of_prelude(ShapeType::BigInteger, DefaultDocumentValue::Number(NumberValue::from_big_int(value)))
    }

    /// A document holding a `bigDecimal`.
    pub fn from_big_decimal(value: Decimal) -> (r: Document)
        ensures
            prelude_document(r, ShapeType::BigDecimal, DefaultDocumentValue::Number(NumberValue::Float(NumberFloat::BigDecimal(value)))),
    {
        Self::of_prelude(ShapeType::BigDecimal, DefaultDocumentValue::Number(NumberValue::from_big_decimal(value)))
    }

    /// A document holding a string.
    pub fn from_string(value: String) -> (r: Document)
        ensures
            prelude_document(r, ShapeType::String, DefaultDocumentValue::String(value)),
    {
        Self::of_prelude(ShapeType::String, DefaultDocumentValue::String(value))
    }

    /// A document holding a copy of a string slice.
    pub fn from_str(value: &str) -> (r: Document)
        ensures
            r.value matches DefaultDocumentValue::String(s) && s@ == value@,
            prelude_document(r, ShapeType::String, r.value),
    {
        Self::of_prelude(ShapeType::String, DefaultDocumentValue::String(owned(value)))
    }

    /// A document holding a blob.
    pub fn from_blob(value: Vec<u8>) -> (r: Document)
        ensures
            prelude_document(r, ShapeType::Blob, DefaultDocumentValue::Blob(value)),
    {
        Self::of_prelude(ShapeType::Blob, DefaultDocumentValue::Blob(value))
    }

    /// A document holding a timestamp.
    pub fn from_timestamp(value: Timestamp) -> (r: Document)
        ensures
            prelude_document(r, ShapeType::Timestamp, DefaultDocumentValue::Timestamp(value)),
    {
        Self::of_prelude(ShapeType::Timestamp, DefaultDocumentValue::Timestamp(value))
    }

    /// A null document under the prelude schema of type `t`, as an absent optional value gives.
    pub fn null_of(t: ShapeType) -> (r: Document)
        requires
            crate::schema::is_prelude_scalar(t),
        ensures
            prelude_document(r, t, DefaultDocumentValue::Null),
    {
        Self::of_prelude(t, DefaultDocumentValue::Null)
    }

    /// A document holding a list of documents, under the list schema
    /// `smithy.api#Document` whose member targets the document schema.
    pub fn from_list(value: Vec<Document>) -> (r: Document)
        ensures
            r.value == DefaultDocumentValue::List(value),
            r.discriminator is None,
            r.schema.spec_shape_type() == ShapeType::List,
            r.schema.spec_id() == crate::shapes::shape_id_of_parts("smithy.api"@, "Document"@, None),
    {
        let b = Schema::list_builder(prelude_shape_id("Document"), Vec::new());
        proof {
            reveal_strlit("member");
        }
        let b = b.put_member("member", &crate::schema::prelude_schema(ShapeType::Document), Vec::new());
        let schema = b.build();
        Document { schema, value: DefaultDocumentValue::List(value), discriminator: None }
    }

    /// A document holding a map of documents, under the map schema `smithy.api#Document`
    /// with string keys and document values.
    pub fn from_map(value: Vec<(String, Document)>) -> (r: Document)
        ensures
            r.value == DefaultDocumentValue::MapValue(value),
            r.discriminator is None,
            r.schema.spec_shape_type() == ShapeType::MapType,
            r.schema.spec_id() == crate::shapes::shape_id_of_parts("smithy.api"@, "Document"@, None),
    {
        let b = Schema::map_builder(prelude_shape_id("Document"), Vec::new());
        proof {
            reveal_strlit("key");
            reveal_strlit("value");
        }
        let b = b.put_member("key", &crate::schema::prelude_schema(ShapeType::String), Vec::new());
        let b = b.put_member("value", &crate::schema::prelude_schema(ShapeType::Document), Vec::new());
        let schema = b.build();
        Document { schema, value: DefaultDocumentValue::MapValue(value), discriminator: None }
    }

    /// The schema of the document.
    pub fn schema(&self) -> (r: &SchemaRef)
        ensures
            *r == self.schema,
    {
        &self.schema
    }

    /// The value of the document.
    pub fn value(&self) -> (r: &DefaultDocumentValue)
        ensures
            *r == self.value,
    {
        &self.value
    }

    /// The discriminator (type id) of a typed document.
    pub fn discriminator(&self) -> (r: Option<&ShapeId>)
        ensures
            match self.discriminator {
                Some(d) => r == Some(&d),
                None => r is None,
            },
    {
        match &self.discriminator {
            Some(d) => Some(d),
            None => None,
        }
    }

    /// The shape type of the data the document holds; `None` for null.
    pub fn get_type(&self) -> (r: Option<ShapeType>)
        ensures
            r == value_type(self.value),
    {
        self.value.get_type()
    }

    /// The number of elements of a list document, or of entries of a map document; 0 otherwise.
    pub fn size(&self) -> (r: usize)
        ensures
            r == value_size(self.value),
    {
        self.value.size()
    }

    /// Whether the document holds null.
    pub fn is_null(&self) -> (r: bool)
        ensures
            r == (self.value is Null),
    {
        self.value.is_null()
    }
}

} // verus!

verus! {

impl Document {
    /// The text of a string document.
    pub fn as_string(&self) -> (r: Option<&str>)
        ensures
            match self.value {
                DefaultDocumentValue::String(s) => r is Some && r.unwrap()@ == s@,
                _ => r is None,
            },
    {
        self.value.as_string()
    }

    /// The value of a boolean document.
    pub fn as_bool(&self) -> (r: Option<bool>)
        ensures
            match self.value {
                DefaultDocumentValue::Boolean(b) => r == Some(b),
                _ => r is None,
            },
    {
        self.value.as_bool()
    }

    /// The bytes of a blob document.
    pub fn as_blob(&self) -> (r: Option<&Vec<u8>>)
        ensures
            match self.value {
                DefaultDocumentValue::Blob(b) => r == Some(&b),
                _ => r is None,
            },
    {
        self.value.as_blob()
    }

    /// The instant of a timestamp document.
    pub fn as_timestamp(&self) -> (r: Option<Timestamp>)
        ensures
            match self.value {
                DefaultDocumentValue::Timestamp(t) => r == Some(t),
                _ => r is None,
            },
    {
        self.value.as_timestamp()
    }

    /// The value as a `byte`, when the document holds an integer number that fits.
    pub fn as_byte(&self) -> (r: Option<i8>)
        ensures
            match r {
                Some(v) => integer_in(self.value, i8::MIN as int, i8::MAX as int) == Some(v as int),
                None => integer_in(self.value, i8::MIN as int, i8::MAX as int) is None,
            },
    {
        self.value.as_byte()
    }

    /// The value as a `short`, when the document holds an integer number that fits.
    pub fn as_short(&self) -> (r: Option<i16>)
        ensures
            match r {
                Some(v) => integer_in(self.value, i16::MIN as int, i16::MAX as int) == Some(v as int),
                None => integer_in(self.value, i16::MIN as int, i16::MAX as int) is None,
            },
    {
        self.value.as_short()
    }

    /// The value as an `integer`, when the document holds an integer number that fits.
    pub fn as_integer(&self) -> (r: Option<i32>)
        ensures
            match r {
                Some(v) => integer_in(self.value, i32::MIN as int, i32::MAX as int) == Some(v as int),
                None => integer_in(self.value, i32::MIN as int, i32::MAX as int) is None,
            },
    {
        self.value.as_integer()
    }

    /// The value as a `long`, when the document holds an integer number that fits.
    pub fn as_long(&self) -> (r: Option<i64>)
        ensures
            match r {
                Some(v) => integer_in(self.value, i64::MIN as int, i64::MAX as int) == Some(v as int),
                None => integer_in(self.value, i64::MIN as int, i64::MAX as int) is None,
            },
    {
        self.value.as_long()
    }

    /// The value as a `bigInteger`, when the document holds an integer number.
    pub fn as_big_integer(&self) -> (r: Option<i128>)
        ensures
            match r {
                Some(v) => integer_in(self.value, i128::MIN as int, i128::MAX as int) == Some(v as int),
                None => integer_in(self.value, i128::MIN as int, i128::MAX as int) is None,
            },
    {
        self.value.as_big_integer()
    }

    /// The value of a `bigDecimal` document.
    pub fn as_big_decimal(&self) -> (r: Option<Decimal>)
        ensures
            match self.value {
                DefaultDocumentValue::Number(NumberValue::Float(NumberFloat::BigDecimal(d))) => r
                    == Some(d),
                _ => r is None,
            },
    {
        self.value.as_big_decimal()
    }

    /// The elements of a list document.
    pub fn as_list(&self) -> (r: Option<&Vec<Document>>)
        ensures
            match self.value {
                DefaultDocumentValue::List(l) => r == Some(&l),
                _ => r is None,
            },
    {
        self.value.as_list()
    }

    /// The entries of a map document.
    pub fn as_map(&self) -> (r: Option<&Vec<(String, Document)>>)
        ensures
            match self.value {
                DefaultDocumentValue::MapValue(m) => r == Some(&m),
                _ => r is None,
            },
    {
        self.value.as_map()
    }
}

/// A document made from an integer converts back to it, and to any integer type whose
/// range holds it; it converts to no type whose range does not.
pub proof fn law_integer_roundtrip(n: NumberInteger, lo: int, hi: int)
    ensures
        integer_in(DefaultDocumentValue::Number(NumberValue::Integer(n)), lo, hi) == if lo
            <= integer_value(n) <= hi {
            Some(integer_value(n))
        } else {
            None
        },
        integer_in(
            DefaultDocumentValue::Number(NumberValue::Integer(n)),
            i128::MIN as int,
            i128::MAX as int,
        ) == Some(integer_value(n)),
{
}

/// Whether `d` holds a string.
pub open spec fn holds_string(d: Document) -> bool {
    d.value is String
}

/// The text a document holds; empty unless it holds a string.
pub open spec fn doc_text(d: Document) -> Seq<char> {
    match d.value {
        DefaultDocumentValue::String(s) => s@,
        _ => seq![],
    }
}

/// The texts of the documents, when every one of them holds a string.
pub open spec fn strings_of(docs: Seq<Document>) -> Option<Seq<Seq<char>>>
    decreases docs.len(),
{
    if docs.len() == 0 {
        Some(seq![])
    } else {
        match strings_of(docs.drop_last()) {
            Some(p) => if holds_string(docs.last()) {
                Some(p.push(doc_text(docs.last())))
            } else {
                None
            },
            None => None,
        }
    }
}

proof fn lemma_strings_of_prefix(docs: Seq<Document>, k: int)
    requires
        0 <= k <= docs.len(),
        strings_of(docs.take(k)) is None,
    ensures
        strings_of(docs) is None,
    decreases docs.len() - k,
{
    if k < docs.len() {
        assert(docs.take(k + 1).drop_last() =~= docs.take(k));
        lemma_strings_of_prefix(docs, k + 1);
    } else {
        assert(docs.take(k) =~= docs);
    }
}

/// A list of documents that each hold a string converts to the list of those strings,
/// in order.
pub proof fn law_string_list_roundtrip(docs: Seq<Document>)
    requires
        forall|i: int| 0 <= i < docs.len() ==> holds_string(#[trigger] docs[i]),
    ensures
        strings_of(docs) == Some(Seq::new(docs.len(), |i: int| doc_text(docs[i]))),
    decreases docs.len(),
{
    if docs.len() > 0 {
        let init = docs.drop_last();
        assert forall|i: int| 0 <= i < init.len() implies holds_string(#[trigger] init[i]) by {
            assert(init[i] == docs[i]);
        }
        law_string_list_roundtrip(init);
        assert(holds_string(docs[docs.len() - 1]));
        assert(Seq::new(init.len(), |i: int| doc_text(init[i])).push(doc_text(docs.last()))
            =~= Seq::new(docs.len(), |i: int| doc_text(docs[i])));
    }
}

/// Equal document values are of the same type.
pub proof fn law_equal_values_same_type(v: DefaultDocumentValue, w: DefaultDocumentValue)
    ensures
        value_eq(v, w) ==> value_type(v) == value_type(w),
{
}

impl DefaultDocumentValue {
    /// Converts a list of string documents into the strings, in order; fails when the
    /// value is not a list, or on the first element that is not a string.
    pub fn into_strings(self) -> (r: Result<Vec<String>, DocumentError>)
        ensures
            match self {
                DefaultDocumentValue::List(l) => match strings_of(l@) {
                    Some(ss) => r matches Ok(v) && v@.map_values(|x: String| x@) == ss,
                    None => r matches Err(e) && is_conversion_error(e, "Expected string document"@),
                },
                _ => r matches Err(e) && is_conversion_error(e, "Expected list document"@),
            },
    {
        match self {
            DefaultDocumentValue::List(l) => strings_in(&l),
            _ => Err(conversion_error("Expected list document")),
        }
    }
}

/// The strings held by the documents of `l`, in order; fails on the first document that
/// does not hold a string.
fn strings_in(l: &Vec<Document>) -> (r: Result<Vec<String>, DocumentError>)
    ensures
        match strings_of(l@) {
            Some(ss) => r matches Ok(v) && v@.map_values(|x: String| x@) == ss,
            None => r matches Err(e) && is_conversion_error(e, "Expected string document"@),
        },
{
    let mut out: Vec<String> = Vec::new();
    let mut i: usize = 0;
    assert(l@.take(0) =~= Seq::<Document>::empty());
    while i < l.len()
        invariant
            i <= l@.len(),
            strings_of(l@.take(i as int)) == Some(out@.map_values(|x: String| x@)),
        decreases l@.len() - i,
    {
        let ghost prev = out@.map_values(|x: String| x@);
        assert(l@.take(i + 1).drop_last() =~= l@.take(i as int));
        match &l[i].value {
            DefaultDocumentValue::String(s) => {
                out.push(owned(s.as_str()));
                assert(out@.map_values(|x: String| x@) =~= prev.push(doc_text(l@[i as int])));
            },
            _ => {
                proof {
                    let t = l@.take(i + 1);
                    assert(t.last() == l@[i as int]);
                    assert(strings_of(t) is None);
                    lemma_strings_of_prefix(l@, i + 1);
                }
                return Err(conversion_error("Expected string document"));
            },
        }
        i = i + 1;
    }
    assert(l@.take(i as int) =~= l@);
    Ok(out)
}

} // verus!

verus! {

/// The type a document value reports is the kind of data it holds: a timestamp reports
/// `timestamp`, a string `string`, and so on for every kind, each number by its own
/// width; only the null value reports no type.
pub proof fn law_value_type_is_kind(v: DefaultDocumentValue)
    ensures
        (value_type(v) == Some(ShapeType::Timestamp)) <==> v is Timestamp,
        (value_type(v) == Some(ShapeType::String)) <==> v is String,
        (value_type(v) == Some(ShapeType::Blob)) <==> v is Blob,
        (value_type(v) == Some(ShapeType::Boolean)) <==> v is Boolean,
        (value_type(v) == Some(ShapeType::List)) <==> v is List,
        (value_type(v) == Some(ShapeType::MapType)) <==> v is MapValue,
        (value_type(v) == Some(ShapeType::Byte)) <==> v matches DefaultDocumentValue::Number(
            NumberValue::Integer(NumberInteger::Byte(_)),
        ),
        (value_type(v) == Some(ShapeType::Short)) <==> v matches DefaultDocumentValue::Number(
            NumberValue::Integer(NumberInteger::Short(_)),
        ),
        (value_type(v) == Some(ShapeType::Integer)) <==> v matches DefaultDocumentValue::Number(
            NumberValue::Integer(NumberInteger::Integer(_)),
        ),
        (value_type(v) == Some(ShapeType::Long)) <==> v matches DefaultDocumentValue::Number(
            NumberValue::Integer(NumberInteger::Long(_)),
        ),
        (value_type(v) == Some(ShapeType::BigInteger)) <==> v matches DefaultDocumentValue::Number(
            NumberValue::Integer(NumberInteger::BigInt(_)),
        ),
        (value_type(v) == Some(ShapeType::Float)) <==> v matches DefaultDocumentValue::Number(
            NumberValue::Float(NumberFloat::Float(_)),
        ),
        (value_type(v) == Some(ShapeType::Double)) <==> v matches DefaultDocumentValue::Number(
            NumberValue::Float(NumberFloat::Double(_)),
        ),
        (value_type(v) == Some(ShapeType::BigDecimal)) <==> v matches DefaultDocumentValue::Number(
            NumberValue::Float(NumberFloat::BigDecimal(_)),
        ),
        (value_type(v) is None) <==> v is Null,
{
}

/// Equality of document values is faithful on scalars: two timestamps, strings, blobs,
/// booleans or integers of one width are equal exactly when they hold the same value.
pub proof fn law_scalar_equality_faithful(v: DefaultDocumentValue, w: DefaultDocumentValue)
    ensures
        match (v, w) {
            (DefaultDocumentValue::Timestamp(x), DefaultDocumentValue::Timestamp(y)) => value_eq(v, w)
                <==> x.epoch_nanos == y.epoch_nanos,
            (DefaultDocumentValue::String(x), DefaultDocumentValue::String(y)) => value_eq(v, w)
                <==> x@ == y@,
            (DefaultDocumentValue::Blob(x), DefaultDocumentValue::Blob(y)) => value_eq(v, w) <==> x@
                == y@,
            (DefaultDocumentValue::Boolean(x), DefaultDocumentValue::Boolean(y)) => value_eq(v, w)
                <==> x == y,
            (
                DefaultDocumentValue::Number(NumberValue::Integer(NumberInteger::Byte(x))),
                DefaultDocumentValue::Number(NumberValue::Integer(NumberInteger::Byte(y))),
            ) => value_eq(v, w) <==> x == y,
            (
                DefaultDocumentValue::Number(NumberValue::Integer(NumberInteger::Short(x))),
                DefaultDocumentValue::Number(NumberValue::Integer(NumberInteger::Short(y))),
            ) => value_eq(v, w) <==> x == y,
            (
                DefaultDocumentValue::Number(NumberValue::Integer(NumberInteger::Integer(x))),
                DefaultDocumentValue::Number(NumberValue::Integer(NumberInteger::Integer(y))),
            ) => value_eq(v, w) <==> x == y,
            (
                DefaultDocumentValue::Number(NumberValue::Integer(NumberInteger::Long(x))),
                DefaultDocumentValue::Number(NumberValue::Integer(NumberInteger::Long(y))),
            ) => value_eq(v, w) <==> x == y,
            (
                DefaultDocumentValue::Number(NumberValue::Integer(NumberInteger::BigInt(x))),
                DefaultDocumentValue::Number(NumberValue::Integer(NumberInteger::BigInt(y))),
            ) => value_eq(v, w) <==> x == y,
            _ => value_type(v) != value_type(w) ==> !value_eq(v, w),
        },
{
}

/// Two documents under one schema and discriminator that hold timestamps are equal
/// exactly when the timestamps are the same instant.
pub proof fn law_timestamp_documents_equal(d: Document, e: Document)
    requires
        d.value is Timestamp,
        e.value is Timestamp,
        d.schema == e.schema,
        d.discriminator == e.discriminator,
    ensures
        doc_eq(d, e) <==> d.value->Timestamp_0.epoch_nanos == e.value->Timestamp_0.epoch_nanos,
{
}

} // verus!
