//! Validation of shapes against the constraints of their schema.
//!
//! The default validator walks a value against its schema and checks the built-in
//! Smithy constraints (`@length`, `@range`, `@pattern`, `@uniqueItems`, `@required`),
//! enum membership and that the type of each value matches its schema. All errors of
//! all nested values are collected, each with the path at which it was found. The walk
//! has two limits: the depth of the path, and the number of errors collected; reaching
//! either stops validation.
use vstd::prelude::*;

use crate::numbers::{
    decimal_display, decimal_in, decimal_less, decimal_trunc, decimal_lt, decimal_of_int, decimal_text,
    decimal_to_int, int_text, int_to_string,
    Decimal,
};
use crate::prelude::{
    length_max, length_min, range_max, range_min, LengthTrait, PatternTrait, RangeTrait,
    UniqueItemsTrait,
};
use crate::refs::share;
use crate::schema::{schema_of, string_views, Schema, SchemaRef};
use crate::shapes::ShapeType;
use crate::text::owned;
use crate::traits::{StaticTraitId, TraitValue};
use crate::values::ShapeValue;

verus! {

/// One step of the path at which a validation error was found.
pub enum PathElement {
    /// A member of a structure, by its member schema.
    Schema(SchemaRef),
    /// An element of a list.
    Index(usize),
    /// An entry of a map, by its key.
    Key(String),
}

/// Failures of the validator itself, rather than of the value.
pub enum ValidationFailure {
    ExpectedMember(String),
    MaximumDepthExceeded(usize),
    MaxErrorsReached(usize),
    PopFromEmptyValidator,
    UniqueItemOnFloat,
    Custom(String),
}

/// Violations of the built-in Smithy constraints.
pub enum SmithyConstraints {
    Required,
    /// Length, minimum and maximum.
    Length(usize, usize, usize),
    /// Value and pattern.
    Pattern(String, String),
    /// Value, minimum and maximum.
    Range(Decimal, Decimal, Decimal),
    UniqueItems,
    ShapeType(ShapeType),
    EnumValue(String, Vec<String>),
    IntEnumValue(i32, Vec<i32>),
}

/// A validation error: a failure of the validator or a violated constraint.
pub enum ValidationError {
    Failure(ValidationFailure),
    Constraint(SmithyConstraints),
}

/// One validation error and the path at which it was found.
pub struct ValidationErrorField {
    pub paths: Vec<PathElement>,
    pub error: ValidationError,
}

/// All validation errors found in a value, in the order they were found.
pub struct ValidationErrors {
    pub errors: Vec<ValidationErrorField>,
}

/// The name of a shape type.
pub open spec fn shape_type_name(t: ShapeType) -> Seq<char> {
    match t {
        ShapeType::Blob => "Blob"@,
        ShapeType::Boolean => "Boolean"@,
        ShapeType::String => "String"@,
        ShapeType::Timestamp => "Timestamp"@,
        ShapeType::Byte => "Byte"@,
        ShapeType::Short => "Short"@,
        ShapeType::Integer => "Integer"@,
        ShapeType::Long => "Long"@,
        ShapeType::Float => "Float"@,
        ShapeType::Double => "Double"@,
        ShapeType::BigInteger => "BigInteger"@,
        ShapeType::BigDecimal => "BigDecimal"@,
        ShapeType::Document => "Document"@,
        ShapeType::Enum => "Enum"@,
        ShapeType::IntEnum => "IntEnum"@,
        ShapeType::List => "List"@,
        ShapeType::MapType => "Map"@,
        ShapeType::Structure => "Structure"@,
        ShapeType::Union => "Union"@,
        ShapeType::Member => "Member"@,
        ShapeType::Service => "Service"@,
        ShapeType::Resource => "Resource"@,
        ShapeType::Operation => "Operation"@,
    }
}

/// The name of a shape type.
pub fn shape_type_label(t: ShapeType) -> (r: &'static str)
    ensures
        r@ == shape_type_name(t),
{
    match t {
        ShapeType::Blob => "Blob",
        ShapeType::Boolean => "Boolean",
        ShapeType::String => "String",
        ShapeType::Timestamp => "Timestamp",
        ShapeType::Byte => "Byte",
        ShapeType::Short => "Short",
        ShapeType::Integer => "Integer",
        ShapeType::Long => "Long",
        ShapeType::Float => "Float",
        ShapeType::Double => "Double",
        ShapeType::BigInteger => "BigInteger",
        ShapeType::BigDecimal => "BigDecimal",
        ShapeType::Document => "Document",
        ShapeType::Enum => "Enum",
        ShapeType::IntEnum => "IntEnum",
        ShapeType::List => "List",
        ShapeType::MapType => "Map",
        ShapeType::Structure => "Structure",
        ShapeType::Union => "Union",
        ShapeType::Member => "Member",
        ShapeType::Service => "Service",
        ShapeType::Resource => "Resource",
        ShapeType::Operation => "Operation",
    }
}

} // verus!

verus! {

/// The text that `Debug` shows for a string: the string in quotes, with escapes.
pub uninterp spec fn debug_str(s: Seq<char>) -> Seq<char>;

/// Formats a string with `Debug` (`format!("{:?}", ..)`).
#[verifier::external_body]
fn debug_text(s: &str) -> (r: String)
    ensures
        r@ == debug_str(s@),
{
    format!("{:?}", s)
}

/// Items separated by `", "`.
pub open spec fn joined(items: Seq<Seq<char>>) -> Seq<char>
    decreases items.len(),
{
    if items.len() == 0 {
        Seq::empty()
    } else if items.len() == 1 {
        items[0]
    } else {
        joined(items.drop_last()) + ", "@ + items.last()
    }
}

/// How `Debug` shows a set of strings: `{"a", "b"}`.
pub open spec fn debug_str_set(values: Seq<String>) -> Seq<char> {
    "{"@ + joined(values.map_values(|v: String| debug_str(v@))) + "}"@
}

/// How `Debug` shows a set of integers: `{1, 2}`.
pub open spec fn debug_int_set(values: Seq<i32>) -> Seq<char> {
    "{"@ + joined(values.map_values(|v: i32| int_text(v as int))) + "}"@
}

/// The message of a validation error.
pub open spec fn error_message(e: ValidationError) -> Seq<char> {
    match e {
        ValidationError::Constraint(c) => match c {
            SmithyConstraints::Required => "Field is Required."@,
            SmithyConstraints::Length(len, min, max) => "Size: "@ + int_text(len as int)
                + " does not conform to @length constraint. Expected between "@ + int_text(
                min as int,
            ) + " and "@ + int_text(max as int) + "."@,
            SmithyConstraints::Pattern(v, p) => "Value `"@ + v@
                + "` did not conform to expected pattern `"@ + p@ + "`"@,
            SmithyConstraints::Range(v, min, max) => "Size: "@ + decimal_display(
                v.unscaled,
                v.scale,
            ) + " does not conform to @range constraint. Expected between "@ + decimal_display(
                min.unscaled,
                min.scale,
            ) + " and "@ + decimal_display(max.unscaled, max.scale) + "."@,
            SmithyConstraints::UniqueItems => "Items in collection should be unique."@,
            SmithyConstraints::ShapeType(t) => "Shape type "@ + shape_type_name(t)
                + " does not match expected."@,
            SmithyConstraints::EnumValue(v, values) => "Enum value `"@ + v@
                + "` invalid. Expected one of: "@ + debug_str_set(values@) + "."@,
            SmithyConstraints::IntEnumValue(v, values) => "Enum value `"@ + int_text(v as int)
                + "` invalid. Expected one of: "@ + debug_int_set(values@) + "."@,
        },
        ValidationError::Failure(f) => match f {
            ValidationFailure::ExpectedMember(m) => "Expected schema to contain member: `"@ + m@
                + "`"@,
            ValidationFailure::MaximumDepthExceeded(d) => "Maximum Validation depth: "@
                + int_text(d as int) + " exceeded"@,
            ValidationFailure::MaxErrorsReached(n) => "Maximum Number of errors ("@ + int_text(
                n as int,
            ) + ") reached"@,
            ValidationFailure::PopFromEmptyValidator =>
                "Tried to pop from an empty path stack. This is a bug."@,
            ValidationFailure::UniqueItemOnFloat =>
                "Attempted to perform `@uniqueItem` check on float. This is invalid"@,
            ValidationFailure::Custom(m) => m@,
        },
    }
}

fn push_str(out: &mut String, s: &str)
    ensures
        final(out)@ == old(out)@ + s@,
{
    let mut i: usize = 0;
    let len = s.unicode_len();
    let ghost start = out@;
    while i < len
        invariant
            len == s@.len(),
            i <= len,
            out@ == start + s@.subrange(0, i as int),
        decreases len - i,
    {
        crate::text::push_char(out, s.get_char(i));
        i = i + 1;
        assert(out@ =~= start + s@.subrange(0, i as int));
    }
    assert(s@.subrange(0, len as int) =~= s@);
}

fn usize_text(v: usize) -> (r: String)
    ensures
        r@ == int_text(v as int),
{
    int_to_string(v as i128)
}

fn joined_text(items: &Vec<String>) -> (r: String)
    ensures
        r@ == joined(string_views(items@)),
{
    let mut out = String::new();
    let mut i: usize = 0;
    while i < items.len()
        invariant
            i <= items@.len(),
            out@ == joined(string_views(items@.take(i as int))),
        decreases items@.len() - i,
    {
        proof {
            reveal_strlit(", ");
            let t = string_views(items@.take(i + 1));
            assert(t.drop_last() =~= string_views(items@.take(i as int)));
        }
        if i > 0 {
            push_str(&mut out, ", ");
        }
        push_str(&mut out, items[i].as_str());
        i = i + 1;
    }
    assert(items@.take(i as int) =~= items@);
    out
}

fn str_set_text(values: &Vec<String>) -> (r: String)
    ensures
        r@ == debug_str_set(values@),
{
    let mut parts: Vec<String> = Vec::new();
    let mut i: usize = 0;
    while i < values.len()
        invariant
            i <= values@.len(),
            string_views(parts@) == values@.take(i as int).map_values(
                |v: String| debug_str(v@),
            ),
        decreases values@.len() - i,
    {
        let ghost old_parts = parts@;
        let d = debug_text(values[i].as_str());
        parts.push(d);
        proof {
            assert(string_views(parts@) =~= string_views(old_parts).push(d@));
            assert(values@.take(i + 1).map_values(|v: String| debug_str(v@)) =~= values@.take(i as int).map_values(
                |v: String| debug_str(v@),
            ).push(values@.take(i + 1).map_values(|v: String| debug_str(v@))[i as int]));
        }
        i = i + 1;
    }
    assert(values@.take(i as int) =~= values@);
    proof {
        reveal_strlit("{");
        reveal_strlit("}");
    }
    let mut out = owned("{");
    push_str(&mut out, joined_text(&parts).as_str());
    push_str(&mut out, "}");
    out
}

fn int_set_text(values: &Vec<i32>) -> (r: String)
    ensures
        r@ == debug_int_set(values@),
{
    let mut parts: Vec<String> = Vec::new();
    let mut i: usize = 0;
    while i < values.len()
        invariant
            i <= values@.len(),
            string_views(parts@) == values@.take(i as int).map_values(
                |v: i32| int_text(v as int),
            ),
        decreases values@.len() - i,
    {
        let ghost old_parts = parts@;
        let d = int_to_string(values[i] as i128);
        parts.push(d);
        proof {
            assert(string_views(parts@) =~= string_views(old_parts).push(d@));
            assert(values@.take(i + 1).map_values(|v: i32| int_text(v as int)) =~= values@.take(i as int).map_values(
                |v: i32| int_text(v as int),
            ).push(values@.take(i + 1).map_values(|v: i32| int_text(v as int))[i as int]));
        }
        i = i + 1;
    }
    assert(values@.take(i as int) =~= values@);
    proof {
        reveal_strlit("{");
        reveal_strlit("}");
    }
    let mut out = owned("{");
    push_str(&mut out, joined_text(&parts).as_str());
    push_str(&mut out, "}");
    out
}

impl ValidationError {
    /// The message of the error.
    pub fn message(&self) -> (r: String)
        ensures
            r@ == error_message(*self),
    {
        let mut out = String::new();
        match self {
            ValidationError::Constraint(c) => match c {
                SmithyConstraints::Required => push_str(&mut out, "Field is Required."),
                SmithyConstraints::Length(len, min, max) => {
                    push_str(&mut out, "Size: ");
                    push_str(&mut out, usize_text(*len).as_str());
                    push_str(&mut out, " does not conform to @length constraint. Expected between ");
                    push_str(&mut out, usize_text(*min).as_str());
                    push_str(&mut out, " and ");
                    push_str(&mut out, usize_text(*max).as_str());
                    push_str(&mut out, ".");
                },
                SmithyConstraints::Pattern(v, p) => {
                    push_str(&mut out, "Value `");
                    push_str(&mut out, v.as_str());
                    push_str(&mut out, "` did not conform to expected pattern `");
                    push_str(&mut out, p.as_str());
                    push_str(&mut out, "`");
                },
                SmithyConstraints::Range(v, min, max) => {
                    push_str(&mut out, "Size: ");
                    push_str(&mut out, decimal_text(v).as_str());
                    push_str(&mut out, " does not conform to @range constraint. Expected between ");
                    push_str(&mut out, decimal_text(min).as_str());
                    push_str(&mut out, " and ");
                    push_str(&mut out, decimal_text(max).as_str());
                    push_str(&mut out, ".");
                },
                SmithyConstraints::UniqueItems => push_str(&mut out, "Items in collection should be unique."),
                SmithyConstraints::ShapeType(t) => {
                    push_str(&mut out, "Shape type ");
                    push_str(&mut out, shape_type_label(*t));
                    push_str(&mut out, " does not match expected.");
                },
                SmithyConstraints::EnumValue(v, values) => {
                    push_str(&mut out, "Enum value `");
                    push_str(&mut out, v.as_str());
                    push_str(&mut out, "` invalid. Expected one of: ");
                    push_str(&mut out, str_set_text(values).as_str());
                    push_str(&mut out, ".");
                },
                SmithyConstraints::IntEnumValue(v, values) => {
                    push_str(&mut out, "Enum value `");
                    push_str(&mut out, int_to_string(*v as i128).as_str());
                    push_str(&mut out, "` invalid. Expected one of: ");
                    push_str(&mut out, int_set_text(values).as_str());
                    push_str(&mut out, ".");
                },
            },
            ValidationError::Failure(f) => match f {
                ValidationFailure::ExpectedMember(m) => {
                    push_str(&mut out, "Expected schema to contain member: `");
                    push_str(&mut out, m.as_str());
                    push_str(&mut out, "`");
                },
                ValidationFailure::MaximumDepthExceeded(d) => {
                    push_str(&mut out, "Maximum Validation depth: ");
                    push_str(&mut out, usize_text(*d).as_str());
                    push_str(&mut out, " exceeded");
                },
                ValidationFailure::MaxErrorsReached(n) => {
                    push_str(&mut out, "Maximum Number of errors (");
                    push_str(&mut out, usize_text(*n).as_str());
                    push_str(&mut out, ") reached");
                },
                ValidationFailure::PopFromEmptyValidator => push_str(&mut out, "Tried to pop from an empty path stack. This is a bug."),
                ValidationFailure::UniqueItemOnFloat => push_str(&mut out, "Attempted to perform `@uniqueItem` check on float. This is invalid"),
                ValidationFailure::Custom(m) => push_str(&mut out, m.as_str()),
            },
        }
        out
    }
}

} // verus!

verus! {

/// Abstract value of a path element.
pub enum PathView {
    Schema(SchemaRef),
    Index(usize),
    Key(Seq<char>),
}

impl View for PathElement {
    type V = PathView;

    open spec fn view(&self) -> PathView {
        match self {
            PathElement::Schema(s) => PathView::Schema(*s),
            PathElement::Index(i) => PathView::Index(*i),
            PathElement::Key(k) => PathView::Key(k@),
        }
    }
}

/// Abstract value of a validation error.
pub enum ErrorKind {
    Required,
    Length(usize, usize, usize),
    Pattern(Seq<char>, Seq<char>),
    Range(Decimal, Decimal, Decimal),
    UniqueItems,
    ShapeType(ShapeType),
    EnumValue(Seq<char>, Seq<Seq<char>>),
    IntEnumValue(i32, Seq<i32>),
    ExpectedMember(Seq<char>),
    MaximumDepthExceeded(usize),
    MaxErrorsReached(usize),
    PopFromEmptyValidator,
    UniqueItemOnFloat,
    Custom(Seq<char>),
}

impl View for ValidationError {
    type V = ErrorKind;

    open spec fn view(&self) -> ErrorKind {
        match self {
            ValidationError::Constraint(c) => match c {
                SmithyConstraints::Required => ErrorKind::Required,
                SmithyConstraints::Length(a, b, c) => ErrorKind::Length(*a, *b, *c),
                SmithyConstraints::Pattern(v, p) => ErrorKind::Pattern(v@, p@),
                SmithyConstraints::Range(v, a, b) => ErrorKind::Range(*v, *a, *b),
                SmithyConstraints::UniqueItems => ErrorKind::UniqueItems,
                SmithyConstraints::ShapeType(t) => ErrorKind::ShapeType(*t),
                SmithyConstraints::EnumValue(v, vs) => ErrorKind::EnumValue(v@, string_views(vs@)),
                SmithyConstraints::IntEnumValue(v, vs) => ErrorKind::IntEnumValue(*v, vs@),
            },
            ValidationError::Failure(f) => match f {
                ValidationFailure::ExpectedMember(m) => ErrorKind::ExpectedMember(m@),
                ValidationFailure::MaximumDepthExceeded(d) => ErrorKind::MaximumDepthExceeded(*d),
                ValidationFailure::MaxErrorsReached(n) => ErrorKind::MaxErrorsReached(*n),
                ValidationFailure::PopFromEmptyValidator => ErrorKind::PopFromEmptyValidator,
                ValidationFailure::UniqueItemOnFloat => ErrorKind::UniqueItemOnFloat,
                ValidationFailure::Custom(m) => ErrorKind::Custom(m@),
            },
        }
    }
}

/// The views of the elements of a path.
pub open spec fn path_views(p: Seq<PathElement>) -> Seq<PathView> {
    p.map_values(|e: PathElement| e@)
}

/// An error found while walking a value, with the path at which it was found;
/// a fatal error stops validation.
pub struct Event {
    pub path: Seq<PathView>,
    pub error: ErrorKind,
    pub fatal: bool,
}

/// A non-fatal error.
pub open spec fn err(path: Seq<PathView>, e: ErrorKind) -> Event {
    Event { path, error: e, fatal: false }
}

/// A fatal error.
pub open spec fn fatal(path: Seq<PathView>, e: ErrorKind) -> Event {
    Event { path, error: e, fatal: true }
}

} // verus!

verus! {

/// No event, or one non-fatal event for the error.
pub open spec fn opt_events(e: Option<ErrorKind>, path: Seq<PathView>) -> Seq<Event> {
    match e {
        Some(k) => seq![err(path, k)],
        None => seq![],
    }
}

/// A type error if the schema's type is not `expected`.
pub open spec fn type_error(schema: Schema, expected: ShapeType) -> Option<ErrorKind> {
    if schema.spec_shape_type() != expected {
        Some(ErrorKind::ShapeType(schema.spec_shape_type()))
    } else {
        None
    }
}

/// An error if the schema's `@length` constraint does not admit `len`.
pub open spec fn length_error(schema: Schema, len: usize) -> Option<ErrorKind> {
    match schema.trait_lookup(LengthTrait::spec_trait_id()) {
        Some(t) => match t.value {
            TraitValue::Length(l) => if len < length_min(l) || len > length_max(l) {
                Some(ErrorKind::Length(len, length_min(l), length_max(l)))
            } else {
                None
            },
            _ => None,
        },
        None => None,
    }
}

/// An error if the schema's `@range` constraint does not admit the integer `v`. The
/// check is made only when both bounds have an integer part in `[lo, hi]`, the range
/// of the value's type; the value is compared with those integer parts.
pub open spec fn int_range_error(schema: Schema, v: int, lo: int, hi: int) -> Option<ErrorKind> {
    match schema.trait_lookup(RangeTrait::spec_trait_id()) {
        Some(t) => match t.value {
            TraitValue::Range(r) => match (decimal_in(range_min(r), lo, hi), decimal_in(range_max(r), lo, hi)) {
                (Some(mn), Some(mx)) => if v < mn || v > mx {
                    Some(ErrorKind::Range(Decimal { unscaled: v as i128, scale: 0 }, range_min(r), range_max(r)))
                } else {
                    None
                },
                _ => None,
            },
            _ => None,
        },
        None => None,
    }
}

/// An error if the schema's `@range` constraint does not admit the decimal `v`.
pub open spec fn decimal_range_error(schema: Schema, v: Decimal) -> Option<ErrorKind> {
    match schema.trait_lookup(RangeTrait::spec_trait_id()) {
        Some(t) => match t.value {
            TraitValue::Range(r) => if decimal_lt(v, range_min(r)) || decimal_lt(range_max(r), v) {
                Some(ErrorKind::Range(v, range_min(r), range_max(r)))
            } else {
                None
            },
            _ => None,
        },
        None => None,
    }
}

/// An error if the schema's `@pattern` finds no match in `v`.
pub open spec fn pattern_error(schema: Schema, v: Seq<char>) -> Option<ErrorKind> {
    match schema.trait_lookup(PatternTrait::spec_trait_id()) {
        Some(t) => match t.value {
            TraitValue::Pattern(p) => if !crate::prelude::regex_finds(p.spec_pattern(), v) {
                Some(ErrorKind::Pattern(v, p.spec_pattern()))
            } else {
                None
            },
            _ => None,
        },
        None => None,
    }
}

/// The checks of a string: against a `string` schema its UTF-8 length and its pattern,
/// against an `enum` schema membership, and a type error against any other schema.
pub open spec fn string_events(schema: Schema, v: Seq<char>, path: Seq<PathView>) -> Seq<Event> {
    if schema.spec_shape_type() == ShapeType::String {
        opt_events(length_error(schema, vstd::utf8::encode_utf8(v).len() as usize), path)
            + opt_events(pattern_error(schema, v), path)
    } else if schema.spec_shape_type() == ShapeType::Enum {
        match schema {
            Schema::Enum(e) => if !string_views(e.values@).contains(v) {
                seq![err(path, ErrorKind::EnumValue(v, string_views(e.values@)))]
            } else {
                seq![]
            },
            _ => seq![],
        }
    } else {
        seq![err(path, ErrorKind::ShapeType(schema.spec_shape_type()))]
    }
}

/// The checks of an integer: its range against an `integer` schema, membership against
/// an `intEnum` schema, and a type error against any other schema.
pub open spec fn integer_events(schema: Schema, v: i32, path: Seq<PathView>) -> Seq<Event> {
    if schema.spec_shape_type() == ShapeType::Integer {
        opt_events(int_range_error(schema, v as int, i32::MIN as int, i32::MAX as int), path)
    } else if schema.spec_shape_type() == ShapeType::IntEnum {
        match schema {
            Schema::IntEnum(e) => if !e.values@.contains(v) {
                seq![err(path, ErrorKind::IntEnumValue(v, e.values@))]
            } else {
                seq![]
            },
            _ => seq![],
        }
    } else {
        seq![err(path, ErrorKind::ShapeType(schema.spec_shape_type()))]
    }
}

/// Whether the schema's traits ask for unique items.
pub open spec fn wants_unique(schema: Schema) -> bool {
    schema.has_trait(UniqueItemsTrait::spec_trait_id())
}

/// Whether the path may grow by one element within the depth limit.
pub open spec fn may_push(path: Seq<PathView>, max_depth: usize) -> bool {
    path.len() + 1 <= max_depth
}

} // verus!

verus! {

/// What the uniqueness check compares of a value: the sequence of scalars it writes,
/// with the names of structure members.
pub enum Token {
    Bool(bool),
    Byte(i8),
    Short(i16),
    Int(i32),
    Long(i64),
    BigInt(i128),
    BigDec(Decimal),
    Text(Seq<char>),
    Bytes(Seq<u8>),
    Time(i128),
    Doc,
}

/// The tokens of a value, or the error that makes it unfit for a uniqueness check: a
/// `float` or `double` inside it, or a structure member whose schema is not a member.
pub open spec fn tokens(v: ShapeValue) -> Result<Seq<Token>, ErrorKind>
    decreases v, 1int, 0int,
{
    match v {
        ShapeValue::Boolean(b) => Ok(seq![Token::Bool(b)]),
        ShapeValue::Byte(x) => Ok(seq![Token::Byte(x)]),
        ShapeValue::Short(x) => Ok(seq![Token::Short(x)]),
        ShapeValue::Integer(x) => Ok(seq![Token::Int(x)]),
        ShapeValue::Long(x) => Ok(seq![Token::Long(x)]),
        ShapeValue::Float(..) => Err(ErrorKind::UniqueItemOnFloat),
        ShapeValue::Double(..) => Err(ErrorKind::UniqueItemOnFloat),
        ShapeValue::BigInteger(x) => Ok(seq![Token::BigInt(x)]),
        ShapeValue::BigDecimal(x) => Ok(seq![Token::BigDec(x)]),
        ShapeValue::String(s) => Ok(seq![Token::Text(s@)]),
        ShapeValue::Blob(b) => Ok(seq![Token::Bytes(b@)]),
        ShapeValue::Timestamp(t) => Ok(seq![Token::Time(t.epoch_nanos)]),
        ShapeValue::Document(_) => Ok(seq![Token::Doc]),
        ShapeValue::Null => Ok(seq![Token::Text("null"@)]),
        ShapeValue::Missing => Ok(seq![]),
        ShapeValue::Skip => Ok(seq![]),
        ShapeValue::List(items) => tokens_of_list(items@, 0),
        ShapeValue::MapValue(entries) => tokens_of_entries(entries@, 0),
        ShapeValue::Struct(members) => tokens_of_members(members@, 0),
    }
}

/// Tokens of the elements from position `i` on.
pub open spec fn tokens_of_list(items: Seq<ShapeValue>, i: int) -> Result<Seq<Token>, ErrorKind>
    decreases items, 0int, items.len() - i,
{
    if 0 <= i < items.len() {
        match tokens(items[i]) {
            Err(e) => Err(e),
            Ok(t) => match tokens_of_list(items, i + 1) {
                Err(e) => Err(e),
                Ok(rest) => Ok(t + rest),
            },
        }
    } else {
        Ok(seq![])
    }
}

/// Tokens of the entries from position `i` on: each key, then its value.
pub open spec fn tokens_of_entries(entries: Seq<(ShapeValue, ShapeValue)>, i: int) -> Result<
    Seq<Token>,
    ErrorKind,
>
    decreases entries, 0int, entries.len() - i,
{
    if 0 <= i < entries.len() {
        match tokens(entries[i].0) {
            Err(e) => Err(e),
            Ok(k) => match tokens(entries[i].1) {
                Err(e) => Err(e),
                Ok(v) => match tokens_of_entries(entries, i + 1) {
                    Err(e) => Err(e),
                    Ok(rest) => Ok(k + v + rest),
                },
            },
        }
    } else {
        Ok(seq![])
    }
}

/// Tokens of the members from position `i` on: each member's name, then its value.
pub open spec fn tokens_of_members(members: Seq<(SchemaRef, ShapeValue)>, i: int) -> Result<
    Seq<Token>,
    ErrorKind,
>
    decreases members, 0int, members.len() - i,
{
    if 0 <= i < members.len() {
        match members[i].0.spec_id().member {
            None => Err(ErrorKind::ExpectedMember(members[i].0.spec_id().name)),
            Some(name) => match tokens(members[i].1) {
                Err(e) => Err(e),
                Ok(v) => match tokens_of_members(members, i + 1) {
                    Err(e) => Err(e),
                    Ok(rest) => Ok(seq![Token::Text(name)] + v + rest),
                },
            },
        }
    } else {
        Ok(seq![])
    }
}

/// The text of a map key: integers in decimal, strings as they are; any other kind of
/// value cannot be a key.
pub open spec fn key_text(key_schema: Schema, k: ShapeValue) -> Result<Seq<char>, ErrorKind> {
    match k {
        ShapeValue::Byte(x) => Ok(int_text(x as int)),
        ShapeValue::Short(x) => Ok(int_text(x as int)),
        ShapeValue::Integer(x) => Ok(int_text(x as int)),
        ShapeValue::Long(x) => Ok(int_text(x as int)),
        ShapeValue::String(s) => Ok(s@),
        _ => Err(ErrorKind::Custom("Invalid key type: "@ + shape_type_name(key_schema.spec_shape_type()))),
    }
}

} // verus!

verus! {

/// The errors found by walking `v` against `schema` at `path`, in the order they are
/// found, with at most `max_depth` elements in any path.
pub open spec fn events(schema: Schema, v: ShapeValue, path: Seq<PathView>, max_depth: usize) -> Seq<Event>
    decreases v, 1int, 0int,
{
    match v {
        ShapeValue::Boolean(_) => opt_events(type_error(schema, ShapeType::Boolean), path),
        ShapeValue::Byte(x) => opt_events(type_error(schema, ShapeType::Byte), path) + opt_events(int_range_error(schema, x as int, i8::MIN as int, i8::MAX as int), path),
        ShapeValue::Short(x) => opt_events(type_error(schema, ShapeType::Short), path) + opt_events(int_range_error(schema, x as int, i16::MIN as int, i16::MAX as int), path),
        ShapeValue::Integer(x) => integer_events(schema, x, path),
        ShapeValue::Long(x) => opt_events(type_error(schema, ShapeType::Long), path) + opt_events(int_range_error(schema, x as int, i64::MIN as int, i64::MAX as int), path),
        ShapeValue::Float(..) => opt_events(type_error(schema, ShapeType::Float), path),
        ShapeValue::Double(..) => opt_events(type_error(schema, ShapeType::Double), path),
        ShapeValue::BigInteger(x) => opt_events(type_error(schema, ShapeType::BigInteger), path)
            + opt_events(decimal_range_error(schema, decimal_of_int(x)), path),
        ShapeValue::BigDecimal(x) => opt_events(type_error(schema, ShapeType::BigDecimal), path)
            + opt_events(decimal_range_error(schema, x), path),
        ShapeValue::String(s) => string_events(schema, s@, path),
        ShapeValue::Blob(_) => opt_events(type_error(schema, ShapeType::Blob), path),
        ShapeValue::Timestamp(_) => opt_events(type_error(schema, ShapeType::Timestamp), path),
        ShapeValue::Document(_) => opt_events(type_error(schema, ShapeType::Document), path),
        ShapeValue::Null => seq![],
        ShapeValue::Skip => seq![],
        ShapeValue::Missing => seq![err(path, ErrorKind::Required)],
        ShapeValue::List(items) => opt_events(type_error(schema, ShapeType::List), path) + opt_events(length_error(schema, items@.len() as usize), path) + element_events(
            *schema.spec_get_member("member"@).unwrap(),
            items@,
            wants_unique(schema),
            path,
            max_depth,
            0,
            seq![],
        ),
        ShapeValue::MapValue(entries) => opt_events(type_error(schema, ShapeType::MapType), path)
            + opt_events(length_error(schema, entries@.len() as usize), path) + entry_events(
            *schema.spec_get_member("key"@).unwrap(),
            *schema.spec_get_member("value"@).unwrap(),
            entries@,
            path,
            max_depth,
            0,
        ),
        ShapeValue::Struct(members) => (if schema.spec_shape_type().spec_is_struct_like() {
            seq![]
        } else {
            seq![err(path, ErrorKind::ShapeType(schema.spec_shape_type()))]
        }) + member_events(members@, path, max_depth, 0),
    }
}

/// The errors of the list elements from position `i` on; `seen` holds the tokens of
/// the earlier elements, when items must be unique.
pub open spec fn element_events(
    member: Schema,
    items: Seq<ShapeValue>,
    unique: bool,
    path: Seq<PathView>,
    max_depth: usize,
    i: int,
    seen: Seq<Seq<Token>>,
) -> Seq<Event>
    decreases items, 0int, items.len() - i,
{
    if 0 <= i < items.len() {
        let p = path.push(PathView::Index(i as usize));
        if !may_push(path, max_depth) {
            seq![fatal(path, ErrorKind::MaximumDepthExceeded(max_depth))]
        } else if unique {
            match tokens(items[i]) {
                Err(e) => seq![fatal(p, e)],
                Ok(t) => (if seen.contains(t) {
                    seq![err(p, ErrorKind::UniqueItems)]
                } else {
                    seq![]
                }) + events(member, items[i], p, max_depth) + element_events(
                    member,
                    items,
                    unique,
                    path,
                    max_depth,
                    i + 1,
                    seen.push(t),
                ),
            }
        } else {
            events(member, items[i], p, max_depth) + element_events(
                member,
                items,
                unique,
                path,
                max_depth,
                i + 1,
                seen,
            )
        }
    } else {
        seq![]
    }
}

/// The errors of the map entries from position `i` on: each key and its value are
/// checked under the key's text.
pub open spec fn entry_events(
    key_schema: Schema,
    value_schema: Schema,
    entries: Seq<(ShapeValue, ShapeValue)>,
    path: Seq<PathView>,
    max_depth: usize,
    i: int,
) -> Seq<Event>
    decreases entries, 0int, entries.len() - i,
{
    if 0 <= i < entries.len() {
        match key_text(key_schema, entries[i].0) {
            Err(e) => seq![fatal(path, e)],
            Ok(k) => if !may_push(path, max_depth) {
                seq![fatal(path, ErrorKind::MaximumDepthExceeded(max_depth))]
            } else {
                let p = path.push(PathView::Key(k));
                events(key_schema, entries[i].0, p, max_depth) + events(
                    value_schema,
                    entries[i].1,
                    p,
                    max_depth,
                ) + entry_events(key_schema, value_schema, entries, path, max_depth, i + 1)
            },
        }
    } else {
        seq![]
    }
}

/// The errors of the structure members from position `i` on, each checked against its
/// member schema under that schema.
pub open spec fn member_events(
    members: Seq<(SchemaRef, ShapeValue)>,
    path: Seq<PathView>,
    max_depth: usize,
    i: int,
) -> Seq<Event>
    decreases members, 0int, members.len() - i,
{
    if 0 <= i < members.len() {
        if !may_push(path, max_depth) {
            seq![fatal(path, ErrorKind::MaximumDepthExceeded(max_depth))]
        } else {
            events(
                *members[i].0,
                members[i].1,
                path.push(PathView::Schema(members[i].0)),
                max_depth,
            ) + member_events(members, path, max_depth, i + 1)
        }
    } else {
        seq![]
    }
}

} // verus!

verus! {

/// Whether validating `v` against `schema` never reaches a case the validator cannot
/// handle: an integer or string checked against a member whose target is an enum (the
/// enum values are read from the schema itself), or a list or map whose schema lacks
/// the `member`, `key` or `value` member.
pub open spec fn validatable(schema: Schema, v: ShapeValue) -> bool
    decreases v, 1int, 0int,
{
    match v {
        ShapeValue::Integer(_) => schema.spec_shape_type() == ShapeType::IntEnum ==> schema is IntEnum,
        ShapeValue::String(_) => schema.spec_shape_type() == ShapeType::Enum ==> schema is Enum,
        ShapeValue::List(items) => schema.spec_get_member("member"@) is Some
            && items_validatable(*schema.spec_get_member("member"@).unwrap(), items@, 0),
        ShapeValue::MapValue(entries) => schema.spec_get_member("key"@) is Some
            && schema.spec_get_member("value"@) is Some && entries_validatable(
            *schema.spec_get_member("key"@).unwrap(),
            *schema.spec_get_member("value"@).unwrap(),
            entries@,
            0,
        ),
        ShapeValue::Struct(members) => members_validatable(members@, 0),
        _ => true,
    }
}

/// The elements from position `i` on can be validated against `member`.
pub open spec fn items_validatable(member: Schema, items: Seq<ShapeValue>, i: int) -> bool
    decreases items, 0int, items.len() - i,
{
    0 <= i < items.len() ==> validatable(member, items[i]) && items_validatable(member, items, i + 1)
}

/// The entries from position `i` on can be validated.
pub open spec fn entries_validatable(
    key_schema: Schema,
    value_schema: Schema,
    entries: Seq<(ShapeValue, ShapeValue)>,
    i: int,
) -> bool
    decreases entries, 0int, entries.len() - i,
{
    0 <= i < entries.len() ==> validatable(key_schema, entries[i].0) && validatable(
        value_schema,
        entries[i].1,
    ) && entries_validatable(key_schema, value_schema, entries, i + 1)
}

/// The members from position `i` on can be validated against their schemas.
pub open spec fn members_validatable(members: Seq<(SchemaRef, ShapeValue)>, i: int) -> bool
    decreases members, 0int, members.len() - i,
{
    0 <= i < members.len() ==> validatable(*members[i].0, members[i].1) && members_validatable(
        members,
        i + 1,
    )
}

/// The errors collected so far, and whether validation has stopped.
pub struct Collected {
    pub errors: Seq<(Seq<PathView>, ErrorKind)>,
    pub stopped: bool,
}

/// Records one event: once `max_errors` errors are held, the next one records
/// `MaxErrorsReached` instead and stops; a fatal event stops after it is recorded.
pub open spec fn record(c: Collected, e: Event, max_errors: usize) -> Collected {
    if c.stopped {
        c
    } else if c.errors.len() >= max_errors {
        Collected {
            errors: c.errors.push((e.path, ErrorKind::MaxErrorsReached(max_errors))),
            stopped: true,
        }
    } else {
        Collected { errors: c.errors.push((e.path, e.error)), stopped: e.fatal }
    }
}

/// Records the events in order.
pub open spec fn record_all(c: Collected, es: Seq<Event>, max_errors: usize) -> Collected
    decreases es.len(),
{
    if es.len() == 0 {
        c
    } else {
        record_all(record(c, es[0], max_errors), es.drop_first(), max_errors)
    }
}

/// Recording two runs of events one after the other records their concatenation.
pub proof fn lemma_record_all_concat(c: Collected, a: Seq<Event>, b: Seq<Event>, max_errors: usize)
    ensures
        record_all(c, a + b, max_errors) == record_all(record_all(c, a, max_errors), b, max_errors),
    decreases a.len(),
{
    if a.len() == 0 {
        assert(a + b =~= b);
    } else {
        assert((a + b).drop_first() =~= a.drop_first() + b);
        lemma_record_all_concat(record(c, a[0], max_errors), a.drop_first(), b, max_errors);
    }
}

/// Nothing more is recorded once validation has stopped.
pub proof fn lemma_record_all_stopped(c: Collected, es: Seq<Event>, max_errors: usize)
    requires
        c.stopped,
    ensures
        record_all(c, es, max_errors) == c,
    decreases es.len(),
{
    if es.len() > 0 {
        lemma_record_all_stopped(c, es.drop_first(), max_errors);
    }
}

/// What validating `v` against `schema` reports: `Ok` when no error was recorded,
/// otherwise all recorded errors in order.
pub open spec fn validation_result(
    schema: Schema,
    v: ShapeValue,
    max_depth: usize,
    max_errors: usize,
) -> Seq<(Seq<PathView>, ErrorKind)> {
    record_all(
        Collected { errors: seq![], stopped: false },
        events(schema, v, seq![], max_depth),
        max_errors,
    ).errors
}

} // verus!

verus! {

/// A token of the uniqueness check, as computed.
pub enum HashToken {
    Bool(bool),
    Byte(i8),
    Short(i16),
    Int(i32),
    Long(i64),
    BigInt(i128),
    BigDec(Decimal),
    Text(String),
    Bytes(Vec<u8>),
    Time(i128),
    Doc,
}

impl View for HashToken {
    type V = Token;

    open spec fn view(&self) -> Token {
        match self {
            HashToken::Bool(b) => Token::Bool(*b),
            HashToken::Byte(x) => Token::Byte(*x),
            HashToken::Short(x) => Token::Short(*x),
            HashToken::Int(x) => Token::Int(*x),
            HashToken::Long(x) => Token::Long(*x),
            HashToken::BigInt(x) => Token::BigInt(*x),
            HashToken::BigDec(x) => Token::BigDec(*x),
            HashToken::Text(s) => Token::Text(s@),
            HashToken::Bytes(b) => Token::Bytes(b@),
            HashToken::Time(t) => Token::Time(*t),
            HashToken::Doc => Token::Doc,
        }
    }
}

/// The views of a sequence of tokens.
pub open spec fn token_views(s: Seq<HashToken>) -> Seq<Token> {
    s.map_values(|t: HashToken| t@)
}

fn push_token(out: &mut Vec<HashToken>, t: HashToken)
    ensures
        token_views(final(out)@) == token_views(old(out)@).push(t@),
{
    out.push(t);
    assert(token_views(out@) =~= token_views(old(out)@).push(t@));
}

fn collect_tokens(v: &ShapeValue, out: &mut Vec<HashToken>) -> (r: Result<(), ValidationFailure>)
    ensures
        match tokens(*v) {
            Ok(t) => r is Ok && token_views(final(out)@) == token_views(old(out)@) + t,
            Err(e) => r matches Err(f) && ValidationError::Failure(f)@ == e,
        },
    decreases v, 1int,
{
    match v {
        ShapeValue::Boolean(b) => {
            push_token(out, HashToken::Bool(*b));
            Ok(())
        },
        ShapeValue::Byte(x) => {
            push_token(out, HashToken::Byte(*x));
            Ok(())
        },
        ShapeValue::Short(x) => {
            push_token(out, HashToken::Short(*x));
            Ok(())
        },
        ShapeValue::Integer(x) => {
            push_token(out, HashToken::Int(*x));
            Ok(())
        },
        ShapeValue::Long(x) => {
            push_token(out, HashToken::Long(*x));
            Ok(())
        },
        ShapeValue::Float(..) => Err(ValidationFailure::UniqueItemOnFloat),
        ShapeValue::Double(..) => Err(ValidationFailure::UniqueItemOnFloat),
        ShapeValue::BigInteger(x) => {
            push_token(out, HashToken::BigInt(*x));
            Ok(())
        },
        ShapeValue::BigDecimal(x) => {
            push_token(out, HashToken::BigDec(*x));
            Ok(())
        },
        ShapeValue::String(s) => {
            push_token(out, HashToken::Text(owned(s.as_str())));
            Ok(())
        },
        ShapeValue::Blob(b) => {
            let mut copy: Vec<u8> = Vec::new();
            let mut i: usize = 0;
            while i < b.len()
                invariant
                    i <= b@.len(),
                    copy@ == b@.take(i as int),
                decreases b@.len() - i,
            {
                copy.push(b[i]);
                i = i + 1;
                assert(copy@ =~= b@.take(i as int));
            }
            assert(b@.take(i as int) =~= b@);
            push_token(out, HashToken::Bytes(copy));
            Ok(())
        },
        ShapeValue::Timestamp(t) => {
            push_token(out, HashToken::Time(t.epoch_nanos));
            Ok(())
        },
        ShapeValue::Document(_) => {
            push_token(out, HashToken::Doc);
            Ok(())
        },
        ShapeValue::Null => {
            proof {
                reveal_strlit("null");
            }
            push_token(out, HashToken::Text(owned("null")));
            Ok(())
        },
        ShapeValue::Missing => {
            assert(token_views(out@) =~= token_views(out@) + seq![]);
            Ok(())
        },
        ShapeValue::Skip => {
            assert(token_views(out@) =~= token_views(out@) + seq![]);
            Ok(())
        },
        ShapeValue::List(items) => collect_list_tokens(items, out),
        ShapeValue::MapValue(entries) => collect_entry_tokens(entries, out),
        ShapeValue::Struct(members) => collect_member_tokens(members, out),
    }
}

fn collect_list_tokens(items: &Vec<ShapeValue>, out: &mut Vec<HashToken>) -> (r: Result<
    (),
    ValidationFailure,
>)
    ensures
        match tokens_of_list(items@, 0) {
            Ok(t) => r is Ok && token_views(final(out)@) == token_views(old(out)@) + t,
            Err(e) => r matches Err(f) && ValidationError::Failure(f)@ == e,
        },
    decreases items, 0int,
{
    let ghost start = token_views(out@);
    let mut i: usize = 0;
    while i < items.len()
        invariant
            i <= items@.len(),
            ({
                let whole = tokens_of_list(items@, 0);
                let rest = tokens_of_list(items@, i as int);
                &&& whole is Ok <==> rest is Ok
                &&& rest is Err ==> whole == rest
                &&& rest is Ok ==> start + whole->Ok_0 == token_views(out@) + rest->Ok_0
            }),
        decreases items@.len() - i,
    {
        let ghost before = token_views(out@);
        match collect_tokens(&items[i], out) {
            Ok(()) => {},
            Err(f) => {
                return Err(f);
            },
        }
        proof {
            match tokens_of_list(items@, i + 1) {
                Ok(rest) => {
                    let t = tokens(items@[i as int])->Ok_0;
                    assert(start + tokens_of_list(items@, 0)->Ok_0 == before + (t + rest));
                    assert(before + (t + rest) =~= token_views(out@) + rest);
                },
                Err(_) => {},
            }
        }
        i = i + 1;
    }
    proof {
        assert(token_views(out@) + seq![] =~= token_views(out@));
    }
    Ok(())
}

fn collect_entry_tokens(entries: &Vec<(ShapeValue, ShapeValue)>, out: &mut Vec<HashToken>) -> (r:
    Result<(), ValidationFailure>)
    ensures
        match tokens_of_entries(entries@, 0) {
            Ok(t) => r is Ok && token_views(final(out)@) == token_views(old(out)@) + t,
            Err(e) => r matches Err(f) && ValidationError::Failure(f)@ == e,
        },
    decreases entries, 0int,
{
    let ghost start = token_views(out@);
    let mut i: usize = 0;
    while i < entries.len()
        invariant
            i <= entries@.len(),
            ({
                let whole = tokens_of_entries(entries@, 0);
                let rest = tokens_of_entries(entries@, i as int);
                &&& whole is Ok <==> rest is Ok
                &&& rest is Err ==> whole == rest
                &&& rest is Ok ==> start + whole->Ok_0 == token_views(out@) + rest->Ok_0
            }),
        decreases entries@.len() - i,
    {
        let ghost before = token_views(out@);
        match collect_tokens(&entries[i].0, out) {
            Ok(()) => {},
            Err(f) => {
                return Err(f);
            },
        }
        let ghost middle = token_views(out@);
        match collect_tokens(&entries[i].1, out) {
            Ok(()) => {},
            Err(f) => {
                return Err(f);
            },
        }
        proof {
            match tokens_of_entries(entries@, i + 1) {
                Ok(rest) => {
                    let k = tokens(entries@[i as int].0)->Ok_0;
                    let v = tokens(entries@[i as int].1)->Ok_0;
                    assert(before + (k + v + rest) =~= token_views(out@) + rest);
                },
                Err(_) => {},
            }
        }
        i = i + 1;
    }
    proof {
        assert(token_views(out@) + seq![] =~= token_views(out@));
    }
    Ok(())
}

fn collect_member_tokens(members: &Vec<(SchemaRef, ShapeValue)>, out: &mut Vec<HashToken>) -> (r:
    Result<(), ValidationFailure>)
    ensures
        match tokens_of_members(members@, 0) {
            Ok(t) => r is Ok && token_views(final(out)@) == token_views(old(out)@) + t,
            Err(e) => r matches Err(f) && ValidationError::Failure(f)@ == e,
        },
    decreases members, 0int,
{
    let ghost start = token_views(out@);
    let mut i: usize = 0;
    while i < members.len()
        invariant
            i <= members@.len(),
            ({
                let whole = tokens_of_members(members@, 0);
                let rest = tokens_of_members(members@, i as int);
                &&& whole is Ok <==> rest is Ok
                &&& rest is Err ==> whole == rest
                &&& rest is Ok ==> start + whole->Ok_0 == token_views(out@) + rest->Ok_0
            }),
        decreases members@.len() - i,
    {
        let ghost before = token_views(out@);
        let id = members[i].0.id();
        match id.member() {
            None => {
                return Err(ValidationFailure::ExpectedMember(owned(id.name())));
            },
            Some(name) => {
                push_token(out, HashToken::Text(owned(name)));
            },
        }
        match collect_tokens(&members[i].1, out) {
            Ok(()) => {},
            Err(f) => {
                return Err(f);
            },
        }
        proof {
            match tokens_of_members(members@, i + 1) {
                Ok(rest) => {
                    let name = members@[i as int].0.spec_id().member->Some_0;
                    let v = tokens(members@[i as int].1)->Ok_0;
                    assert(before + (seq![Token::Text(name)] + v + rest) =~= token_views(out@) + rest);
                },
                Err(_) => {},
            }
        }
        i = i + 1;
    }
    proof {
        assert(token_views(out@) + seq![] =~= token_views(out@));
    }
    Ok(())
}

} // verus!

verus! {

fn bytes_same(a: &Vec<u8>, b: &Vec<u8>) -> (r: bool)
    ensures
        r == (a@ == b@),
{
    if a.len() != b.len() {
        return false;
    }
    let mut i: usize = 0;
    while i < a.len()
        invariant
            i <= a@.len(),
            a@.len() == b@.len(),
            forall|j: int| 0 <= j < i ==> a@[j] == b@[j],
        decreases a@.len() - i,
    {
        if a[i] != b[i] {
            return false;
        }
        i = i + 1;
    }
    assert(a@ =~= b@);
    true
}

fn token_same(a: &HashToken, b: &HashToken) -> (r: bool)
    ensures
        r == (a@ == b@),
{
    match (a, b) {
        (HashToken::Bool(x), HashToken::Bool(y)) => *x == *y,
        (HashToken::Byte(x), HashToken::Byte(y)) => *x == *y,
        (HashToken::Short(x), HashToken::Short(y)) => *x == *y,
        (HashToken::Int(x), HashToken::Int(y)) => *x == *y,
        (HashToken::Long(x), HashToken::Long(y)) => *x == *y,
        (HashToken::BigInt(x), HashToken::BigInt(y)) => *x == *y,
        (HashToken::BigDec(x), HashToken::BigDec(y)) => x.unscaled == y.unscaled && x.scale == y.scale,
        (HashToken::Text(x), HashToken::Text(y)) => crate::text::str_eq(x.as_str(), y.as_str()),
        (HashToken::Bytes(x), HashToken::Bytes(y)) => bytes_same(x, y),
        (HashToken::Time(x), HashToken::Time(y)) => *x == *y,
        (HashToken::Doc, HashToken::Doc) => true,
        _ => false,
    }
}

fn tokens_same(a: &Vec<HashToken>, b: &Vec<HashToken>) -> (r: bool)
    ensures
        r == (token_views(a@) == token_views(b@)),
{
    if a.len() != b.len() {
        assert(token_views(a@).len() != token_views(b@).len());
        return false;
    }
    let mut i: usize = 0;
    while i < a.len()
        invariant
            i <= a@.len(),
            a@.len() == b@.len(),
            forall|j: int| 0 <= j < i ==> a@[j]@ == b@[j]@,
        decreases a@.len() - i,
    {
        if !token_same(&a[i], &b[i]) {
            assert(token_views(a@)[i as int] != token_views(b@)[i as int]);
            return false;
        }
        i = i + 1;
    }
    assert(token_views(a@) =~= token_views(b@));
    true
}

/// The views of the token sequences seen so far.
pub open spec fn seen_views(s: Seq<Vec<HashToken>>) -> Seq<Seq<Token>> {
    s.map_values(|t: Vec<HashToken>| token_views(t@))
}

fn seen_contains(seen: &Vec<Vec<HashToken>>, t: &Vec<HashToken>) -> (r: bool)
    ensures
        r == seen_views(seen@).contains(token_views(t@)),
{
    let mut i: usize = 0;
    while i < seen.len()
        invariant
            i <= seen@.len(),
            forall|j: int| 0 <= j < i ==> token_views(seen@[j]@) != token_views(t@),
        decreases seen@.len() - i,
    {
        if tokens_same(&seen[i], t) {
            assert(seen_views(seen@)[i as int] == token_views(t@));
            return true;
        }
        i = i + 1;
    }
    proof {
        if seen_views(seen@).contains(token_views(t@)) {
            let k = choose|k: int| 0 <= k < seen_views(seen@).len() && seen_views(seen@)[k] == token_views(t@);
            assert(token_views(seen@[k]@) != token_views(t@));
        }
    }
    false
}

fn key_string(key_schema: &Schema, k: &ShapeValue) -> (r: Result<String, ValidationFailure>)
    ensures
        match key_text(*key_schema, *k) {
            Ok(s) => r matches Ok(x) && x@ == s,
            Err(e) => r matches Err(f) && ValidationError::Failure(f)@ == e,
        },
{
    match k {
        ShapeValue::Byte(x) => Ok(int_to_string(*x as i128)),
        ShapeValue::Short(x) => Ok(int_to_string(*x as i128)),
        ShapeValue::Integer(x) => Ok(int_to_string(*x as i128)),
        ShapeValue::Long(x) => Ok(int_to_string(*x as i128)),
        ShapeValue::String(s) => Ok(owned(s.as_str())),
        _ => {
            proof {
                reveal_strlit("Invalid key type: ");
            }
            let mut msg = owned("Invalid key type: ");
            push_str(&mut msg, shape_type_label(key_schema.shape_type()));
            Err(ValidationFailure::Custom(msg))
        },
    }
}

fn copy_path(p: &Vec<PathElement>) -> (r: Vec<PathElement>)
    ensures
        path_views(r@) == path_views(p@),
{
    let mut r: Vec<PathElement> = Vec::new();
    let mut i: usize = 0;
    while i < p.len()
        invariant
            i <= p@.len(),
            path_views(r@) == path_views(p@.take(i as int)),
        decreases p@.len() - i,
    {
        let e = match &p[i] {
            PathElement::Schema(s) => PathElement::Schema(share(s)),
            PathElement::Index(x) => PathElement::Index(*x),
            PathElement::Key(k) => PathElement::Key(owned(k.as_str())),
        };
        let ghost old_r = r@;
        assert(e@ == p@[i as int]@);
        r.push(e);
        proof {
            assert(path_views(r@) =~= path_views(old_r).push(e@));
            assert(p@.take(i + 1) =~= p@.take(i as int).push(p@[i as int]));
            assert(path_views(p@.take(i + 1)) =~= path_views(p@.take(i as int)).push(p@[i as int]@));
        }
        i = i + 1;
    }
    assert(p@.take(i as int) =~= p@);
    r
}

} // verus!

verus! {

/// The view of an optional error.
pub open spec fn opt_view(e: Option<ValidationError>) -> Option<ErrorKind> {
    match e {
        Some(x) => Some(x@),
        None => None,
    }
}

fn type_check(schema: &Schema, expected: ShapeType) -> (r: Option<ValidationError>)
    ensures
        opt_view(r) == type_error(*schema, expected),
{
    let t = schema.shape_type();
    if t != expected {
        Some(ValidationError::Constraint(SmithyConstraints::ShapeType(t)))
    } else {
        None
    }
}

fn length_check(schema: &Schema, len: usize) -> (r: Option<ValidationError>)
    ensures
        opt_view(r) == length_error(*schema, len),
{
    match schema.get_trait_of::<LengthTrait>() {
        Some(t) => match &t.value {
            TraitValue::Length(l) => {
                let mn = l.min();
                let mx = l.max();
                if len < mn || len > mx {
                    Some(ValidationError::Constraint(SmithyConstraints::Length(len, mn, mx)))
                } else {
                    None
                }
            },
            _ => None,
        },
        None => None,
    }
}

/// The width of a fixed-size integer.
pub enum IntWidth {
    W8,
    W16,
    W32,
    W64,
}

/// The smallest value of an integer width.
pub open spec fn width_min(w: IntWidth) -> int {
    match w {
        IntWidth::W8 => i8::MIN as int,
        IntWidth::W16 => i16::MIN as int,
        IntWidth::W32 => i32::MIN as int,
        IntWidth::W64 => i64::MIN as int,
    }
}

/// The largest value of an integer width.
pub open spec fn width_max(w: IntWidth) -> int {
    match w {
        IntWidth::W8 => i8::MAX as int,
        IntWidth::W16 => i16::MAX as int,
        IntWidth::W32 => i32::MAX as int,
        IntWidth::W64 => i64::MAX as int,
    }
}

fn bound_in_width(d: &Decimal, w: &IntWidth) -> (r: Option<i64>)
    ensures
        match r {
            Some(v) => decimal_in(*d, width_min(*w), width_max(*w)) == Some(v as int),
            None => decimal_in(*d, width_min(*w), width_max(*w)) is None,
        },
{
    let (lo, hi): (i64, i64) = match w {
        IntWidth::W8 => (-128, 127),
        IntWidth::W16 => (-32768, 32767),
        IntWidth::W32 => (-2147483648, 2147483647),
        IntWidth::W64 => (-9223372036854775808, 9223372036854775807),
    };
    match decimal_to_int(d, lo, hi) {
        Some(v) => Some(v as i64),
        None => None,
    }
}

fn int_range_check(schema: &Schema, v: i64, w: IntWidth) -> (r: Option<ValidationError>)
    ensures
        opt_view(r) == int_range_error(*schema, v as int, width_min(w), width_max(w)),
{
    match schema.get_trait_of::<RangeTrait>() {
        Some(t) => match &t.value {
            TraitValue::Range(rg) => {
                let mn = rg.min();
                let mx = rg.max();
                match (bound_in_width(&mn, &w), bound_in_width(&mx, &w)) {
                    (Some(lo), Some(hi)) => if v < lo || v > hi {
                        Some(
                            ValidationError::Constraint(
                                SmithyConstraints::Range(
                                    Decimal { unscaled: v as i128, scale: 0 },
                                    mn,
                                    mx,
                                ),
                            ),
                        )
                    } else {
                        None
                    },
                    _ => None,
                }
            },
            _ => None,
        },
        None => None,
    }
}

fn decimal_range_check(schema: &Schema, v: Decimal) -> (r: Option<ValidationError>)
    ensures
        opt_view(r) == decimal_range_error(*schema, v),
{
    match schema.get_trait_of::<RangeTrait>() {
        Some(t) => match &t.value {
            TraitValue::Range(rg) => {
                let mn = rg.min();
                let mx = rg.max();
                if decimal_less(&v, &mn) || decimal_less(&mx, &v) {
                    Some(ValidationError::Constraint(SmithyConstraints::Range(v, mn, mx)))
                } else {
                    None
                }
            },
            _ => None,
        },
        None => None,
    }
}

fn pattern_check(schema: &Schema, v: &str) -> (r: Option<ValidationError>)
    ensures
        opt_view(r) == pattern_error(*schema, v@),
{
    match schema.get_trait_of::<PatternTrait>() {
        Some(t) => match &t.value {
            TraitValue::Pattern(p) => if !p.finds(v) {
                Some(
                    ValidationError::Constraint(
                        SmithyConstraints::Pattern(owned(v), owned(p.pattern())),
                    ),
                )
            } else {
                None
            },
            _ => None,
        },
        None => None,
    }
}

} // verus!

verus! {

fn copy_strings(v: &Vec<String>) -> (r: Vec<String>)
    ensures
        string_views(r@) == string_views(v@),
{
    let mut r: Vec<String> = Vec::new();
    let mut i: usize = 0;
    while i < v.len()
        invariant
            i <= v@.len(),
            string_views(r@) == string_views(v@.take(i as int)),
        decreases v@.len() - i,
    {
        let ghost old_r = r@;
        r.push(owned(v[i].as_str()));
        proof {
            assert(string_views(r@) =~= string_views(old_r).push(v@[i as int]@));
            assert(v@.take(i + 1) =~= v@.take(i as int).push(v@[i as int]));
            assert(string_views(v@.take(i + 1)) =~= string_views(v@.take(i as int)).push(v@[i as int]@));
        }
        i = i + 1;
    }
    assert(v@.take(i as int) =~= v@);
    r
}

fn copy_ints(v: &Vec<i32>) -> (r: Vec<i32>)
    ensures
        r@ == v@,
{
    let mut r: Vec<i32> = Vec::new();
    let mut i: usize = 0;
    while i < v.len()
        invariant
            i <= v@.len(),
            r@ == v@.take(i as int),
        decreases v@.len() - i,
    {
        r.push(v[i]);
        i = i + 1;
        assert(r@ =~= v@.take(i as int));
    }
    assert(v@.take(i as int) =~= v@);
    r
}

/// The view of a validation error field: its path and its error.
pub open spec fn field_view(f: ValidationErrorField) -> (Seq<PathView>, ErrorKind) {
    (path_views(f.paths@), f.error@)
}

/// The views of a sequence of error fields.
pub open spec fn fields_view(s: Seq<ValidationErrorField>) -> Seq<(Seq<PathView>, ErrorKind)> {
    s.map_values(|f: ValidationErrorField| field_view(f))
}

impl ValidationErrors {
    /// The errors, as paths and error kinds.
    pub open spec fn spec_errors(&self) -> Seq<(Seq<PathView>, ErrorKind)> {
        fields_view(self.errors@)
    }

    /// An empty list of errors.
    pub fn new() -> (r: ValidationErrors)
        ensures
            r.errors@.len() == 0,
    {
        ValidationErrors { errors: Vec::new() }
    }

    /// Appends the errors of `other`.
    pub fn extend(&mut self, other: ValidationErrors)
        ensures
            final(self).errors@ == old(self).errors@ + other.errors@,
    {
        let mut other = other;
        self.errors.append(&mut other.errors);
    }

    /// Adds an error found at `path`.
    pub fn add(&mut self, path: &Vec<PathElement>, error: ValidationError)
        ensures
            final(self).spec_errors() == old(self).spec_errors().push((path_views(path@), error@)),
    {
        let f = ValidationErrorField { paths: copy_path(path), error };
        self.errors.push(f);
        assert(fields_view(self.errors@) =~= fields_view(old(self).errors@).push(
            (path_views(path@), error@),
        ));
    }

    /// A list holding one custom error, at the empty path.
    pub fn custom(msg: &str) -> (r: ValidationErrors)
        ensures
            r.spec_errors() == seq![(Seq::<PathView>::empty(), ErrorKind::Custom(msg@))],
    {
        let mut r = ValidationErrors::new();
        let empty: Vec<PathElement> = Vec::new();
        assert(path_views(empty@) =~= Seq::<PathView>::empty());
        r.add(&empty, ValidationError::Failure(ValidationFailure::Custom(owned(msg))));
        assert(r.spec_errors() =~= seq![(Seq::<PathView>::empty(), ErrorKind::Custom(msg@))]);
        r
    }

    /// The number of errors.
    pub fn len(&self) -> (r: usize)
        ensures
            r == self.errors@.len(),
    {
        self.errors.len()
    }

    /// Whether there are no errors.
    pub fn is_empty(&self) -> (r: bool)
        ensures
            r == (self.errors@.len() == 0),
    {
        self.errors.len() == 0
    }
}

impl ValidationErrorField {
    /// An error found at `paths`.
    pub fn new(paths: &Vec<PathElement>, error: ValidationError) -> (r: ValidationErrorField)
        ensures
            field_view(r) == (path_views(paths@), error@),
    {
        ValidationErrorField { paths: copy_path(paths), error }
    }
}

/// Validator of the built-in Smithy constraints, with a limit on the depth of the walk
/// and on the number of errors collected.
pub struct DefaultValidator {
    errors: Vec<ValidationErrorField>,
    path_stack: Vec<PathElement>,
    max_depth: usize,
    max_errors: usize,
    stopped: bool,
}

impl DefaultValidator {
    /// The errors recorded so far, and whether validation stopped.
    closed spec fn collected(&self) -> Collected {
        Collected { errors: fields_view(self.errors@), stopped: self.stopped }
    }

    /// The current path.
    closed spec fn path(&self) -> Seq<PathView> {
        path_views(self.path_stack@)
    }

    /// The errors collected so far.
    pub closed spec fn spec_collected(&self) -> Seq<(Seq<PathView>, ErrorKind)> {
        fields_view(self.errors@)
    }

    /// The depth limit.
    pub closed spec fn spec_max_depth(&self) -> usize {
        self.max_depth
    }

    /// The error limit.
    pub closed spec fn spec_max_errors(&self) -> usize {
        self.max_errors
    }

    /// A validator with a depth limit of 10 and an error limit of 20.
    pub fn new() -> (r: DefaultValidator)
        ensures
            r.spec_max_depth() == 10,
            r.spec_max_errors() == 20,
    {
        Self::with_limits(10, 20)
    }

    /// A validator with the given depth and error limits.
    pub fn with_limits(max_depth: usize, max_errors: usize) -> (r: DefaultValidator)
        ensures
            r.spec_max_depth() == max_depth,
            r.spec_max_errors() == max_errors,
    {
        DefaultValidator {
            errors: Vec::new(),
            path_stack: Vec::new(),
            max_depth,
            max_errors,
            stopped: false,
        }
    }

    fn emit(&mut self, e: ValidationError, is_fatal: bool)
        requires
            !old(self).stopped,
        ensures
            final(self).collected() == record(
                old(self).collected(),
                Event { path: old(self).path(), error: e@, fatal: is_fatal },
                old(self).max_errors,
            ),
            final(self).path_stack@ == old(self).path_stack@,
            final(self).max_depth == old(self).max_depth,
            final(self).max_errors == old(self).max_errors,
    {
        let ghost old_errors = self.errors@;
        if self.errors.len() >= self.max_errors {
            let f = ValidationErrorField::new(
                &self.path_stack,
                ValidationError::Failure(ValidationFailure::MaxErrorsReached(self.max_errors)),
            );
            self.errors.push(f);
            self.stopped = true;
        } else {
            let f = ValidationErrorField::new(&self.path_stack, e);
            self.errors.push(f);
            self.stopped = is_fatal;
        }
        assert(fields_view(self.errors@) =~= fields_view(old_errors).push(
            field_view(self.errors@.last()),
        ));
    }

    fn emit_opt(&mut self, e: Option<ValidationError>) -> (ok: bool)
        requires
            !old(self).stopped,
        ensures
            final(self).collected() == record_all(
                old(self).collected(),
                opt_events(opt_view(e), old(self).path()),
                old(self).max_errors,
            ),
            ok == !final(self).stopped,
            final(self).path_stack@ == old(self).path_stack@,
            final(self).max_depth == old(self).max_depth,
            final(self).max_errors == old(self).max_errors,
    {
        match e {
            Some(x) => {
                let ghost ev = Event { path: self.path(), error: x@, fatal: false };
                self.emit(x, false);
                proof {
                    let one = seq![ev];
                    assert(one.drop_first() =~= Seq::<Event>::empty());
                    reveal_with_fuel(record_all, 2);
                }
            },
            None => {},
        }
        !self.stopped
    }
}

} // verus!

verus! {

proof fn lemma_then(c: Collected, a: Seq<Event>, b: Seq<Event>, m: usize)
    ensures
        record_all(c, a + b, m) == record_all(record_all(c, a, m), b, m),
        record_all(c, a, m).stopped ==> record_all(c, a + b, m) == record_all(c, a, m),
{
    lemma_record_all_concat(c, a, b, m);
    if record_all(c, a, m).stopped {
        lemma_record_all_stopped(record_all(c, a, m), b, m);
    }
}

proof fn lemma_one(c: Collected, e: Event, m: usize)
    ensures
        record_all(c, seq![e], m) == record(c, e, m),
{
    assert(seq![e].drop_first() =~= Seq::<Event>::empty());
    reveal_with_fuel(record_all, 2);
}

proof fn lemma_items_validatable(m: Schema, items: Seq<ShapeValue>, j: int, i: int)
    requires
        items_validatable(m, items, j),
        0 <= j <= i < items.len(),
    ensures
        validatable(m, items[i]),
    decreases i - j,
{
    if j < i {
        lemma_items_validatable(m, items, j + 1, i);
    }
}

proof fn lemma_entries_validatable(
    ks: Schema,
    vs: Schema,
    entries: Seq<(ShapeValue, ShapeValue)>,
    j: int,
    i: int,
)
    requires
        entries_validatable(ks, vs, entries, j),
        0 <= j <= i < entries.len(),
    ensures
        validatable(ks, entries[i].0),
        validatable(vs, entries[i].1),
    decreases i - j,
{
    if j < i {
        lemma_entries_validatable(ks, vs, entries, j + 1, i);
    }
}

proof fn lemma_members_validatable(members: Seq<(SchemaRef, ShapeValue)>, j: int, i: int)
    requires
        members_validatable(members, j),
        0 <= j <= i < members.len(),
    ensures
        validatable(*members[i].0, members[i].1),
    decreases i - j,
{
    if j < i {
        lemma_members_validatable(members, j + 1, i);
    }
}

} // verus!

verus! {

impl DefaultValidator {
    fn check(&mut self, schema: &SchemaRef, v: &ShapeValue) -> (ok: bool)
        requires
            !old(self).stopped,
            validatable(**schema, *v),
        ensures
            final(self).collected() == record_all(
                old(self).collected(),
                events(**schema, *v, old(self).path(), old(self).max_depth),
                old(self).max_errors,
            ),
            ok == !final(self).stopped,
            final(self).path() == old(self).path(),
            final(self).max_depth == old(self).max_depth,
            final(self).max_errors == old(self).max_errors,
        decreases v, 1int,
    {
        let ghost c0 = self.collected();
        let ghost path = self.path();
        let ghost m = self.max_errors;
        let s: &Schema = &**schema;
        match v {
            ShapeValue::Boolean(_) => self.emit_opt(type_check(s, ShapeType::Boolean)),
            ShapeValue::Byte(x) => {
                let ghost a = opt_events(type_error(*s, ShapeType::Byte), path);
                let ghost b = opt_events(int_range_error(*s, *x as int, width_min(IntWidth::W8), width_max(IntWidth::W8)), path);
                proof {
                    lemma_then(c0, a, b, m);
                }
                if !self.emit_opt(type_check(s, ShapeType::Byte)) {
                    return false;
                }
                self.emit_opt(int_range_check(s, *x as i64, IntWidth::W8))
            },
            ShapeValue::Short(x) => {
                let ghost a = opt_events(type_error(*s, ShapeType::Short), path);
                let ghost b = opt_events(int_range_error(*s, *x as int, width_min(IntWidth::W16), width_max(IntWidth::W16)), path);
                proof {
                    lemma_then(c0, a, b, m);
                }
                if !self.emit_opt(type_check(s, ShapeType::Short)) {
                    return false;
                }
                self.emit_opt(int_range_check(s, *x as i64, IntWidth::W16))
            },
            ShapeValue::Long(x) => {
                let ghost a = opt_events(type_error(*s, ShapeType::Long), path);
                let ghost b = opt_events(int_range_error(*s, *x as int, width_min(IntWidth::W64), width_max(IntWidth::W64)), path);
                proof {
                    lemma_then(c0, a, b, m);
                }
                if !self.emit_opt(type_check(s, ShapeType::Long)) {
                    return false;
                }
                self.emit_opt(int_range_check(s, *x, IntWidth::W64))
            },
            ShapeValue::Integer(x) => {
                let t = s.shape_type();
                if t == ShapeType::Integer {
                    self.emit_opt(int_range_check(s, *x as i64, IntWidth::W32))
                } else if t == ShapeType::IntEnum {
                    match s {
                        Schema::IntEnum(e) => {
                            if !e.contains(*x) {
                                let err = ValidationError::Constraint(
                                    SmithyConstraints::IntEnumValue(*x, copy_ints(&e.values)),
                                );
                                self.emit_opt(Some(err))
                            } else {
                                self.emit_opt(None)
                            }
                        },
                        _ => {
                            proof {
                                assert(false);
                            }
                            true
                        },
                    }
                } else {
                    self.emit_opt(Some(ValidationError::Constraint(SmithyConstraints::ShapeType(t))))
                }
            },
            ShapeValue::Float(..) => self.emit_opt(type_check(s, ShapeType::Float)),
            ShapeValue::Double(..) => self.emit_opt(type_check(s, ShapeType::Double)),
            ShapeValue::BigInteger(x) => {
                let ghost a = opt_events(type_error(*s, ShapeType::BigInteger), path);
                let ghost b = opt_events(decimal_range_error(*s, decimal_of_int(*x)), path);
                proof {
                    lemma_then(c0, a, b, m);
                }
                if !self.emit_opt(type_check(s, ShapeType::BigInteger)) {
                    return false;
                }
                self.emit_opt(decimal_range_check(s, Decimal { unscaled: *x, scale: 0 }))
            },
            ShapeValue::BigDecimal(x) => {
                let ghost a = opt_events(type_error(*s, ShapeType::BigDecimal), path);
                let ghost b = opt_events(decimal_range_error(*s, *x), path);
                proof {
                    lemma_then(c0, a, b, m);
                }
                if !self.emit_opt(type_check(s, ShapeType::BigDecimal)) {
                    return false;
                }
                self.emit_opt(decimal_range_check(s, *x))
            },
            ShapeValue::String(text) => {
                let t = s.shape_type();
                if t == ShapeType::String {
                    let len = text.as_str().len();
                    let ghost a = opt_events(length_error(*s, len), path);
                    let ghost b = opt_events(pattern_error(*s, text@), path);
                    proof {
                        lemma_then(c0, a, b, m);
                    }
                    if !self.emit_opt(length_check(s, len)) {
                        return false;
                    }
                    self.emit_opt(pattern_check(s, text.as_str()))
                } else if t == ShapeType::Enum {
                    match s {
                        Schema::Enum(e) => {
                            if !e.contains(text.as_str()) {
                                let err = ValidationError::Constraint(
                                    SmithyConstraints::EnumValue(
                                        owned(text.as_str()),
                                        copy_strings(&e.values),
                                    ),
                                );
                                self.emit_opt(Some(err))
                            } else {
                                self.emit_opt(None)
                            }
                        },
                        _ => {
                            proof {
                                assert(false);
                            }
                            true
                        },
                    }
                } else {
                    self.emit_opt(Some(ValidationError::Constraint(SmithyConstraints::ShapeType(t))))
                }
            },
            ShapeValue::Blob(_) => self.emit_opt(type_check(s, ShapeType::Blob)),
            ShapeValue::Timestamp(_) => self.emit_opt(type_check(s, ShapeType::Timestamp)),
            ShapeValue::Document(_) => self.emit_opt(type_check(s, ShapeType::Document)),
            ShapeValue::Null => self.emit_opt(None),
            ShapeValue::Skip => self.emit_opt(None),
            ShapeValue::Missing => self.emit_opt(
                Some(ValidationError::Constraint(SmithyConstraints::Required)),
            ),
            ShapeValue::List(items) => self.check_list(schema, items),
            ShapeValue::MapValue(entries) => self.check_map(schema, entries),
            ShapeValue::Struct(members) => {
                let t = s.shape_type();
                let ghost a = if t.spec_is_struct_like() {
                    Seq::<Event>::empty()
                } else {
                    seq![err(path, ErrorKind::ShapeType(t))]
                };
                let ghost b = member_events(members@, path, self.max_depth, 0);
                proof {
                    lemma_then(c0, a, b, m);
                }
                let e = if t.is_struct_like() {
                    None
                } else {
                    Some(ValidationError::Constraint(SmithyConstraints::ShapeType(t)))
                };
                if !self.emit_opt(e) {
                    return false;
                }
                self.check_members(members)
            },
        }
    }

    #[verifier::rlimit(60)]
    fn check_list(&mut self, schema: &SchemaRef, items: &Vec<ShapeValue>) -> (ok: bool)
        requires
            !old(self).stopped,
            validatable(**schema, ShapeValue::List(*items)),
        ensures
            final(self).collected() == record_all(
                old(self).collected(),
                events(**schema, ShapeValue::List(*items), old(self).path(), old(self).max_depth),
                old(self).max_errors,
            ),
            ok == !final(self).stopped,
            final(self).path() == old(self).path(),
            final(self).max_depth == old(self).max_depth,
            final(self).max_errors == old(self).max_errors,
        decreases items, 0int,
    {
        let ghost c0 = self.collected();
        let ghost path = self.path();
        let ghost d = self.max_depth;
        let ghost m = self.max_errors;
        let s: &Schema = &**schema;
        proof {
            reveal_strlit("member");
        }
        let member = s.expect_member("member");
        let unique = s.contains_type::<UniqueItemsTrait>();
        let ghost ea = opt_events(type_error(*s, ShapeType::List), path);
        let ghost eb = opt_events(length_error(*s, items@.len() as usize), path);
        let ghost ec = element_events(schema_of(*member), items@, unique, path, d, 0, seq![]);
        proof {
            assert(events(*s, ShapeValue::List(*items), path, d) == ea + eb + ec);
            lemma_then(c0, ea + eb, ec, m);
            lemma_then(c0, ea, eb, m);
        }
        if !self.emit_opt(type_check(s, ShapeType::List)) {
            return false;
        }
        if !self.emit_opt(length_check(s, items.len())) {
            return false;
        }
        let mut seen: Vec<Vec<HashToken>> = Vec::new();
        assert(seen_views(seen@) =~= Seq::<Seq<Token>>::empty());
        let mut i: usize = 0;
        while i < items.len()
            invariant
                i <= items@.len(),
                !self.stopped,
                self.path() == path,
                self.max_depth == d,
                self.max_errors == m,
                items_validatable(schema_of(*member), items@, 0),
                path == old(self).path(),
                d == old(self).max_depth,
                m == old(self).max_errors,
                c0 == old(self).collected(),
                events(**schema, ShapeValue::List(*items), path, d) == ea + eb + ec,
                record_all(c0, ea + eb + ec, m) == record_all(
                    self.collected(),
                    element_events(schema_of(*member), items@, unique, path, d, i as int, seen_views(seen@)),
                    m,
                ),
            decreases items@.len() - i,
        {
            let ghost ci = self.collected();
            let ghost sv = seen_views(seen@);
            if self.path_stack.len() >= self.max_depth {
                let ghost ev = fatal(path, ErrorKind::MaximumDepthExceeded(d));
                self.emit(ValidationError::Failure(ValidationFailure::MaximumDepthExceeded(self.max_depth)), true);
                proof {
                    assert(element_events(schema_of(*member), items@, unique, path, d, i as int, sv) == seq![ev]);
                    lemma_one(ci, ev, m);
                }
                return false;
            }
            let ghost p = path.push(PathView::Index(i));
            let ghost old_stack = self.path_stack@;
            self.path_stack.push(PathElement::Index(i));
            proof {
                assert(path_views(self.path_stack@) =~= p);
                lemma_items_validatable(schema_of(*member), items@, 0, i as int);
            }
            let item = &items[i];
            let ghost ev_item = events(schema_of(*member), *item, p, d);
            let ghost rest_same = element_events(schema_of(*member), items@, unique, path, d, i + 1, sv);
            if unique {
                let mut toks: Vec<HashToken> = Vec::new();
                match collect_tokens(item, &mut toks) {
                    Err(f) => {
                        let ghost ev = fatal(p, ValidationError::Failure(f)@);
                        self.emit(ValidationError::Failure(f), true);
                        self.path_stack.pop();
                        proof {
                            assert(self.path_stack@ =~= old_stack);
                            assert(element_events(schema_of(*member), items@, unique, path, d, i as int, sv) == seq![ev]);
                            lemma_one(ci, ev, m);
                        }
                        return false;
                    },
                    Ok(()) => {},
                }
                let ghost t = token_views(toks@);
                proof {
                    assert(Seq::<Token>::empty() + tokens(*item)->Ok_0 =~= tokens(*item)->Ok_0);
                }
                let dup = seen_contains(&seen, &toks);
                let u = if dup {
                    Some(ValidationError::Constraint(SmithyConstraints::UniqueItems))
                } else {
                    None
                };
                let ghost eu = opt_events(opt_view(u), p);
                let ghost rest = element_events(schema_of(*member), items@, unique, path, d, i + 1, sv.push(t));
                proof {
                    assert(element_events(schema_of(*member), items@, unique, path, d, i as int, sv) == eu + ev_item + rest);
                    lemma_then(ci, eu + ev_item, rest, m);
                    lemma_then(ci, eu, ev_item, m);
                }
                if !self.emit_opt(u) {
                    self.path_stack.pop();
                    proof {
                        assert(self.path_stack@ =~= old_stack);
                    }
                    return false;
                }
                let ghost before_pop = self.path_stack@;
                let ok = self.check(member, item);
                let ghost after_check = self.path_stack@;
                self.path_stack.pop();
                proof {
                    assert(path_views(self.path_stack@) =~= path_views(after_check).drop_last());
                }
                if !ok {
                    return false;
                }
                seen.push(toks);
                proof {
                    assert(seen_views(seen@) =~= sv.push(t));
                }
            } else {
                proof {
                    assert(element_events(schema_of(*member), items@, unique, path, d, i as int, sv) == ev_item + rest_same);
                    lemma_then(ci, ev_item, rest_same, m);
                }
                let ghost before_pop = self.path_stack@;
                let ok = self.check(member, item);
                let ghost after_check = self.path_stack@;
                self.path_stack.pop();
                proof {
                    assert(path_views(self.path_stack@) =~= path_views(after_check).drop_last());
                }
                if !ok {
                    return false;
                }
            }
            i = i + 1;
        }
        true
    }

    fn check_map(&mut self, schema: &SchemaRef, entries: &Vec<(ShapeValue, ShapeValue)>) -> (ok: bool)
        requires
            !old(self).stopped,
            validatable(**schema, ShapeValue::MapValue(*entries)),
        ensures
            final(self).collected() == record_all(
                old(self).collected(),
                events(**schema, ShapeValue::MapValue(*entries), old(self).path(), old(self).max_depth),
                old(self).max_errors,
            ),
            ok == !final(self).stopped,
            final(self).path() == old(self).path(),
            final(self).max_depth == old(self).max_depth,
            final(self).max_errors == old(self).max_errors,
        decreases entries, 0int,
    {
        let ghost c0 = self.collected();
        let ghost path = self.path();
        let ghost d = self.max_depth;
        let ghost m = self.max_errors;
        let s: &Schema = &**schema;
        proof {
            reveal_strlit("key");
            reveal_strlit("value");
        }
        let key_schema = s.expect_member("key");
        let value_schema = s.expect_member("value");
        let ghost ks = schema_of(*key_schema);
        let ghost vs = schema_of(*value_schema);
        let ghost ea = opt_events(type_error(*s, ShapeType::MapType), path);
        let ghost eb = opt_events(length_error(*s, entries@.len() as usize), path);
        let ghost ec = entry_events(ks, vs, entries@, path, d, 0);
        proof {
            assert(events(*s, ShapeValue::MapValue(*entries), path, d) == ea + eb + ec);
            lemma_then(c0, ea + eb, ec, m);
            lemma_then(c0, ea, eb, m);
        }
        if !self.emit_opt(type_check(s, ShapeType::MapType)) {
            return false;
        }
        if !self.emit_opt(length_check(s, entries.len())) {
            return false;
        }
        let mut i: usize = 0;
        while i < entries.len()
            invariant
                i <= entries@.len(),
                !self.stopped,
                self.path() == path,
                self.max_depth == d,
                self.max_errors == m,
                ks == schema_of(*key_schema),
                vs == schema_of(*value_schema),
                entries_validatable(ks, vs, entries@, 0),
                path == old(self).path(),
                d == old(self).max_depth,
                m == old(self).max_errors,
                c0 == old(self).collected(),
                events(**schema, ShapeValue::MapValue(*entries), path, d) == ea + eb + ec,
                record_all(c0, ea + eb + ec, m) == record_all(
                    self.collected(),
                    entry_events(ks, vs, entries@, path, d, i as int),
                    m,
                ),
            decreases entries@.len() - i,
        {
            let ghost ci = self.collected();
            let k = &entries[i].0;
            let val = &entries[i].1;
            let key = match key_string(&**key_schema, k) {
                Ok(text) => text,
                Err(f) => {
                    let ghost ev = fatal(path, ValidationError::Failure(f)@);
                    self.emit(ValidationError::Failure(f), true);
                    proof {
                        assert(entry_events(ks, vs, entries@, path, d, i as int) == seq![ev]);
                        lemma_one(ci, ev, m);
                    }
                    return false;
                },
            };
            if self.path_stack.len() >= self.max_depth {
                let ghost ev = fatal(path, ErrorKind::MaximumDepthExceeded(d));
                self.emit(ValidationError::Failure(ValidationFailure::MaximumDepthExceeded(self.max_depth)), true);
                proof {
                    assert(entry_events(ks, vs, entries@, path, d, i as int) == seq![ev]);
                    lemma_one(ci, ev, m);
                }
                return false;
            }
            let ghost p = path.push(PathView::Key(key@));
            self.path_stack.push(PathElement::Key(key));
            proof {
                assert(path_views(self.path_stack@) =~= p);
                lemma_entries_validatable(ks, vs, entries@, 0, i as int);
            }
            let ghost a = events(ks, *k, p, d);
            let ghost b = events(vs, *val, p, d);
            let ghost rest = entry_events(ks, vs, entries@, path, d, i + 1);
            proof {
                assert(entry_events(ks, vs, entries@, path, d, i as int) == a + b + rest);
                lemma_then(ci, a + b, rest, m);
                lemma_then(ci, a, b, m);
            }
            let ok = self.check(key_schema, k);
            if !ok {
                let ghost after_check = self.path_stack@;
                self.path_stack.pop();
                proof {
                    assert(path_views(self.path_stack@) =~= path_views(after_check).drop_last());
                }
                return false;
            }
            let ok = self.check(value_schema, val);
            let ghost after_check = self.path_stack@;
            self.path_stack.pop();
            proof {
                assert(path_views(self.path_stack@) =~= path_views(after_check).drop_last());
            }
            if !ok {
                return false;
            }
            i = i + 1;
        }
        true
    }

    fn check_members(&mut self, members: &Vec<(SchemaRef, ShapeValue)>) -> (ok: bool)
        requires
            !old(self).stopped,
            members_validatable(members@, 0),
        ensures
            final(self).collected() == record_all(
                old(self).collected(),
                member_events(members@, old(self).path(), old(self).max_depth, 0),
                old(self).max_errors,
            ),
            ok == !final(self).stopped,
            final(self).path() == old(self).path(),
            final(self).max_depth == old(self).max_depth,
            final(self).max_errors == old(self).max_errors,
        decreases members, 0int,
    {
        let ghost c0 = self.collected();
        let ghost path = self.path();
        let ghost d = self.max_depth;
        let ghost m = self.max_errors;
        let mut i: usize = 0;
        while i < members.len()
            invariant
                i <= members@.len(),
                !self.stopped,
                self.path() == path,
                self.max_depth == d,
                self.max_errors == m,
                members_validatable(members@, 0),
                path == old(self).path(),
                d == old(self).max_depth,
                m == old(self).max_errors,
                c0 == old(self).collected(),
                record_all(c0, member_events(members@, path, d, 0), m) == record_all(
                    self.collected(),
                    member_events(members@, path, d, i as int),
                    m,
                ),
            decreases members@.len() - i,
        {
            let ghost ci = self.collected();
            if self.path_stack.len() >= self.max_depth {
                let ghost ev = fatal(path, ErrorKind::MaximumDepthExceeded(d));
                self.emit(ValidationError::Failure(ValidationFailure::MaximumDepthExceeded(self.max_depth)), true);
                proof {
                    assert(member_events(members@, path, d, i as int) == seq![ev]);
                    lemma_one(ci, ev, m);
                }
                return false;
            }
            let ms = &members[i].0;
            let val = &members[i].1;
            let ghost p = path.push(PathView::Schema(*ms));
            let ghost old_stack = self.path_stack@;
            self.path_stack.push(PathElement::Schema(share(ms)));
            proof {
                assert(path_views(self.path_stack@) =~= p);
                lemma_members_validatable(members@, 0, i as int);
            }
            let ghost a = events(crate::schema::schema_of(*ms), *val, p, d);
            let ghost b = member_events(members@, path, d, i + 1);
            let ok = self.check(ms, val);
            let ghost after_check = self.path_stack@;
            self.path_stack.pop();
            proof {
                assert(path_views(self.path_stack@) =~= path_views(after_check).drop_last());
                assert(member_events(members@, path, d, i as int) == a + b);
                lemma_then(ci, a, b, m);
            }
            if !ok {
                return false;
            }
            i = i + 1;
        }
        true
    }
}

} // verus!

verus! {

impl DefaultValidator {
    /// Takes the errors collected so far: `Ok` when there are none.
    pub fn results(&mut self) -> (r: Result<(), ValidationErrors>)
        ensures
            match r {
                Ok(()) => old(self).spec_collected().len() == 0,
                Err(e) => e.spec_errors() == old(self).spec_collected() && e.errors@.len() > 0,
            },
            final(self).spec_collected().len() == 0,
            final(self).spec_max_depth() == old(self).spec_max_depth(),
            final(self).spec_max_errors() == old(self).spec_max_errors(),
    {
        let mut taken: Vec<ValidationErrorField> = Vec::new();
        std::mem::swap(&mut taken, &mut self.errors);
        if taken.len() > 0 {
            Err(ValidationErrors { errors: taken })
        } else {
            Ok(())
        }
    }

    /// Validates `value` against `schema`: `Ok` when no error is found, otherwise all
    /// errors found, in order, each with its path; validation stops at the first error
    /// past the error limit, or past the depth limit.
    pub fn validate(&mut self, schema: &SchemaRef, value: &ShapeValue) -> (r: Result<
        (),
        ValidationErrors,
    >)
        requires
            validatable(**schema, *value),
        ensures
            match r {
                Ok(()) => validation_result(
                    **schema,
                    *value,
                    old(self).spec_max_depth(),
                    old(self).spec_max_errors(),
                ).len() == 0,
                Err(e) => e.spec_errors() == validation_result(
                    **schema,
                    *value,
                    old(self).spec_max_depth(),
                    old(self).spec_max_errors(),
                ) && e.errors@.len() > 0,
            },
            final(self).spec_max_depth() == old(self).spec_max_depth(),
            final(self).spec_max_errors() == old(self).spec_max_errors(),
    {
        self.errors = Vec::new();
        self.path_stack = Vec::new();
        self.stopped = false;
        proof {
            assert(fields_view(self.errors@) =~= Seq::<(Seq<PathView>, ErrorKind)>::empty());
            assert(path_views(self.path_stack@) =~= Seq::<PathView>::empty());
        }
        self.check(schema, value);
        self.results()
    }
}

proof fn lemma_record_all_len(c: Collected, es: Seq<Event>, m: usize)
    ensures
        record_all(c, es, m).errors.len() >= c.errors.len(),
        record_all(c, es, m).errors.subrange(0, c.errors.len() as int) == c.errors,
        c.errors.len() <= m ==> record_all(c, es, m).errors.len() <= m + 1,
        !c.stopped && es.len() > 0 ==> record_all(c, es, m).errors.len() > c.errors.len(),
    decreases es.len(),
{
    if es.len() > 0 {
        let c1 = record(c, es[0], m);
        lemma_record_all_len(c1, es.drop_first(), m);
        assert(c1.errors.subrange(0, c.errors.len() as int) =~= c.errors);
        let r = record_all(c1, es.drop_first(), m);
        assert(r.errors.subrange(0, c.errors.len() as int) =~= r.errors.subrange(0, c1.errors.len() as int).subrange(0, c.errors.len() as int));
        if c.errors.len() <= m && c1.errors.len() > m {
            assert(c1.stopped);
            lemma_record_all_stopped(c1, es.drop_first(), m);
        }
    }
}

/// A value validates without error exactly when walking it finds no error.
pub proof fn law_valid_iff_no_events(schema: Schema, v: ShapeValue, max_depth: usize, max_errors: usize)
    ensures
        validation_result(schema, v, max_depth, max_errors).len() == 0 <==> events(
            schema,
            v,
            seq![],
            max_depth,
        ).len() == 0,
{
    lemma_record_all_len(Collected { errors: seq![], stopped: false }, events(schema, v, seq![], max_depth), max_errors);
}

/// Validation reports at most one error past the error limit.
pub proof fn law_error_count_bounded(schema: Schema, v: ShapeValue, max_depth: usize, max_errors: usize)
    ensures
        validation_result(schema, v, max_depth, max_errors).len() <= max_errors + 1,
{
    lemma_record_all_len(Collected { errors: seq![], stopped: false }, events(schema, v, seq![], max_depth), max_errors);
}

/// The path and error of each event.
pub open spec fn event_errors(es: Seq<Event>) -> Seq<(Seq<PathView>, ErrorKind)> {
    es.map_values(|e: Event| (e.path, e.error))
}

proof fn lemma_record_all_plain(c: Collected, es: Seq<Event>, m: usize)
    requires
        !c.stopped,
        c.errors.len() + es.len() <= m,
        forall|i: int| 0 <= i < es.len() ==> !(#[trigger] es[i]).fatal,
    ensures
        record_all(c, es, m) == (Collected { errors: c.errors + event_errors(es), stopped: false }),
    decreases es.len(),
{
    if es.len() == 0 {
        assert(c.errors + event_errors(es) =~= c.errors);
    } else {
        let c1 = record(c, es[0], m);
        assert(es.drop_first().len() == es.len() - 1);
        assert forall|i: int| 0 <= i < es.drop_first().len() implies !(#[trigger] es.drop_first()[i]).fatal by {
            assert(es.drop_first()[i] == es[i + 1]);
        }
        lemma_record_all_plain(c1, es.drop_first(), m);
        assert(c1.errors + event_errors(es.drop_first()) =~= c.errors + event_errors(es));
    }
}

/// When the walk finds no more errors than the limit and nothing stops it, validation
/// reports every error found, in order, each at the path where it was found.
pub proof fn law_all_errors_reported(schema: Schema, v: ShapeValue, max_depth: usize, max_errors: usize)
    requires
        events(schema, v, seq![], max_depth).len() <= max_errors,
        forall|i: int|
            0 <= i < events(schema, v, seq![], max_depth).len() ==> !(#[trigger] events(
                schema,
                v,
                seq![],
                max_depth,
            )[i]).fatal,
    ensures
        validation_result(schema, v, max_depth, max_errors) == event_errors(
            events(schema, v, seq![], max_depth),
        ),
{
    let es = events(schema, v, seq![], max_depth);
    lemma_record_all_plain(Collected { errors: seq![], stopped: false }, es, max_errors);
    assert(Seq::<(Seq<PathView>, ErrorKind)>::empty() + event_errors(es) =~= event_errors(es));
}

} // verus!

verus! {

/// The schema carries `@length` with the constraint `l`.
pub open spec fn has_length(schema: Schema, l: LengthTrait) -> bool {
    schema.trait_lookup(LengthTrait::spec_trait_id()) matches Some(t) && t.value == TraitValue::Length(
        l,
    )
}

/// The schema carries `@range` with the constraint `r`.
pub open spec fn has_range(schema: Schema, r: RangeTrait) -> bool {
    schema.trait_lookup(RangeTrait::spec_trait_id()) matches Some(t) && t.value == TraitValue::Range(
        r,
    )
}

/// Whether `v` is a value of one of the fixed-width integer types.
pub open spec fn is_fixed_int(v: ShapeValue) -> bool {
    v is Byte || v is Short || v is Integer || v is Long
}

/// The shape type of a fixed-width integer value.
pub open spec fn fixed_int_type(v: ShapeValue) -> ShapeType {
    match v {
        ShapeValue::Byte(_) => ShapeType::Byte,
        ShapeValue::Short(_) => ShapeType::Short,
        ShapeValue::Integer(_) => ShapeType::Integer,
        _ => ShapeType::Long,
    }
}

/// The number a fixed-width integer value holds.
pub open spec fn fixed_int_value(v: ShapeValue) -> int {
    match v {
        ShapeValue::Byte(x) => x as int,
        ShapeValue::Short(x) => x as int,
        ShapeValue::Integer(x) => x as int,
        ShapeValue::Long(x) => x as int,
        _ => 0,
    }
}

/// The smallest number of the type of a fixed-width integer value.
pub open spec fn fixed_int_min(v: ShapeValue) -> int {
    match v {
        ShapeValue::Byte(_) => -128,
        ShapeValue::Short(_) => -32768,
        ShapeValue::Integer(_) => -2147483648,
        _ => -9223372036854775808,
    }
}

/// The largest number of the type of a fixed-width integer value.
pub open spec fn fixed_int_max(v: ShapeValue) -> int {
    match v {
        ShapeValue::Byte(_) => 127,
        ShapeValue::Short(_) => 32767,
        ShapeValue::Integer(_) => 2147483647,
        _ => 9223372036854775807,
    }
}

/// A string checked against a `string` schema with `@length` gets a `Length` error at
/// its path exactly when its UTF-8 length is below the minimum or above the maximum.
pub proof fn law_string_length_enforced(
    schema: Schema,
    x: String,
    path: Seq<PathView>,
    max_depth: usize,
    l: LengthTrait,
)
    requires
        schema.spec_shape_type() == ShapeType::String,
        has_length(schema, l),
        vstd::utf8::encode_utf8(x@).len() <= usize::MAX,
    ensures
        ({
            let n = vstd::utf8::encode_utf8(x@).len();
            let es = events(schema, ShapeValue::String(x), path, max_depth);
            &&& n < length_min(l) ==> es.contains(
                err(path, ErrorKind::Length(n as usize, length_min(l), length_max(l))),
            )
            &&& n > length_max(l) ==> es.contains(
                err(path, ErrorKind::Length(n as usize, length_min(l), length_max(l))),
            )
            &&& length_min(l) <= n <= length_max(l) ==> forall|i: int|
                0 <= i < es.len() ==> !(#[trigger] es[i].error is Length)
        }),
{
    let n = vstd::utf8::encode_utf8(x@).len();
    let es = events(schema, ShapeValue::String(x), path, max_depth);
    if n < length_min(l) || n > length_max(l) {
        assert(es[0] == err(path, ErrorKind::Length(n as usize, length_min(l), length_max(l))));
    } else {
        assert(es == opt_events(pattern_error(schema, x@), path));
    }
}

/// A list or map checked against a schema of its type with `@length` gets a `Length`
/// error at its path when its size is below the minimum or above the maximum.
pub proof fn law_collection_length_enforced(
    schema: Schema,
    v: ShapeValue,
    path: Seq<PathView>,
    max_depth: usize,
    l: LengthTrait,
)
    requires
        v is List ==> schema.spec_shape_type() == ShapeType::List,
        v is MapValue ==> schema.spec_shape_type() == ShapeType::MapType,
        v is List || v is MapValue,
        has_length(schema, l),
    ensures
        ({
            let n: usize = match v {
                ShapeValue::List(items) => items@.len() as usize,
                ShapeValue::MapValue(entries) => entries@.len() as usize,
                _ => 0,
            };
            (n < length_min(l) || n > length_max(l)) ==> events(
                schema,
                v,
                path,
                max_depth,
            ).contains(err(path, ErrorKind::Length(n, length_min(l), length_max(l))))
        }),
{
    let n: usize = match v {
        ShapeValue::List(items) => items@.len() as usize,
        ShapeValue::MapValue(entries) => entries@.len() as usize,
        _ => 0,
    };
    if n < length_min(l) || n > length_max(l) {
        assert(events(schema, v, path, max_depth)[0] == err(
            path,
            ErrorKind::Length(n, length_min(l), length_max(l)),
        ));
    }
}

/// A byte, short, integer or long checked against a schema of its own type with
/// `@range`, whose bounds (taken by their integer parts) fit the type, gets exactly one
/// error, a `Range` error at its path, when it lies outside `[min, max]`, and no error
/// when it lies inside.
pub proof fn law_integer_range_enforced(
    schema: Schema,
    v: ShapeValue,
    path: Seq<PathView>,
    max_depth: usize,
    r: RangeTrait,
)
    requires
        is_fixed_int(v),
        schema.spec_shape_type() == fixed_int_type(v),
        has_range(schema, r),
        fixed_int_min(v) <= decimal_trunc(range_min(r)) <= fixed_int_max(v),
        fixed_int_min(v) <= decimal_trunc(range_max(r)) <= fixed_int_max(v),
    ensures
        ({
            let x = fixed_int_value(v);
            let outside = x < decimal_trunc(range_min(r)) || x > decimal_trunc(range_max(r));
            &&& outside ==> events(schema, v, path, max_depth) == seq![
                err(
                    path,
                    ErrorKind::Range(Decimal { unscaled: x as i128, scale: 0 }, range_min(r), range_max(r)),
                ),
            ]
            &&& !outside ==> events(schema, v, path, max_depth) == Seq::<Event>::empty()
        }),
{
    let es = events(schema, v, path, max_depth);
    let x = fixed_int_value(v);
    let outside = x < decimal_trunc(range_min(r)) || x > decimal_trunc(range_max(r));
    if outside {
        assert(es =~= seq![
            err(
                path,
                ErrorKind::Range(Decimal { unscaled: x as i128, scale: 0 }, range_min(r), range_max(r)),
            ),
        ]);
    } else {
        assert(es =~= Seq::<Event>::empty());
    }
}

} // verus!
