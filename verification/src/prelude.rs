//! Prelude traits of the `smithy.api` namespace.
use vstd::prelude::*;

use crate::documents::Document;
use crate::numbers::Decimal;
use crate::shapes::{compose_id, ShapeId};
use crate::text::owned;
use crate::traits::{trait_ref, SmithyTrait, StaticTraitId, TraitRef, TraitValue};
use crate::validation::{ErrorKind, PathView, ValidationErrors};

verus! {

/// The id `smithy.api#<name>` of a prelude trait.
pub open spec fn prelude_id(name: Seq<char>) -> Seq<char> {
    compose_id("smithy.api"@, name, None)
}

/// Builds the id `smithy.api#<name>`.
pub fn prelude_shape_id(name: &str) -> (r: ShapeId)
    ensures
        r@.id == prelude_id(name@),
        r@.namespace == "smithy.api"@,
        r@.name == name@,
        r@.member is None,
{
    ShapeId::from_parts("smithy.api", name, None)
}

// ============================================================================
// Annotation traits
// ============================================================================

/// Indicates that data is sensitive and must be handled with care.
pub struct SensitiveTrait;

impl StaticTraitId for SensitiveTrait {
    open spec fn spec_trait_id() -> Seq<char> {
        prelude_id("sensitive"@)
    }

    fn trait_id() -> (r: ShapeId) {
        prelude_shape_id("sensitive")
    }
}

/// Indicates that a member value MUST be set for the shape to be valid.
pub struct RequiredTrait;

impl StaticTraitId for RequiredTrait {
    open spec fn spec_trait_id() -> Seq<char> {
        prelude_id("required"@)
    }

    fn trait_id() -> (r: ShapeId) {
        prelude_shape_id("required")
    }
}

/// Requires that items in a list are unique.
pub struct UniqueItemsTrait;

impl StaticTraitId for UniqueItemsTrait {
    open spec fn spec_trait_id() -> Seq<char> {
        prelude_id("uniqueItems"@)
    }

    fn trait_id() -> (r: ShapeId) {
        prelude_shape_id("uniqueItems")
    }
}

/// Indicates that lists and maps MAY contain null values.
pub struct SparseTrait;

impl StaticTraitId for SparseTrait {
    open spec fn spec_trait_id() -> Seq<char> {
        prelude_id("sparse"@)
    }

    fn trait_id() -> (r: ShapeId) {
        prelude_shape_id("sparse")
    }
}

/// Indicates that the data represented by the shape needs to be streamed.
pub struct StreamingTrait;

impl StaticTraitId for StreamingTrait {
    open spec fn spec_trait_id() -> Seq<char> {
        prelude_id("streaming"@)
    }

    fn trait_id() -> (r: ShapeId) {
        prelude_shape_id("streaming")
    }
}

/// Serializes an object property as an XML attribute rather than a nested XML element.
pub struct XmlAttributeTrait;

impl StaticTraitId for XmlAttributeTrait {
    open spec fn spec_trait_id() -> Seq<char> {
        prelude_id("xmlAttribute"@)
    }

    fn trait_id() -> (r: ShapeId) {
        prelude_shape_id("xmlAttribute")
    }
}

/// Marks a unit type: a member without a meaningful value.
pub struct UnitTypeTrait;

impl StaticTraitId for UnitTypeTrait {
    open spec fn spec_trait_id() -> Seq<char> {
        prelude_id("UnitTypeTrait"@)
    }

    fn trait_id() -> (r: ShapeId) {
        prelude_shape_id("UnitTypeTrait")
    }
}

/// A trait with no data under the given static id.
pub fn annotation<T: StaticTraitId>() -> (r: TraitRef)
    ensures
        r.id@.id == T::spec_trait_id(),
        r.value is Annotation,
{
    trait_ref(SmithyTrait { id: T::trait_id(), value: TraitValue::Annotation })
}

// ============================================================================
// Traits holding a string
// ============================================================================

/// Allows a serialized object property name in a JSON document to differ from
/// the member name used in the model.
pub struct JsonNameTrait {
    pub name: String,
}

impl StaticTraitId for JsonNameTrait {
    open spec fn spec_trait_id() -> Seq<char> {
        prelude_id("jsonName"@)
    }

    fn trait_id() -> (r: ShapeId) {
        prelude_shape_id("jsonName")
    }
}

impl JsonNameTrait {
    /// A `@jsonName` trait with the given name.
    pub fn new(name: &str) -> (r: TraitRef)
        ensures
            r.id@.id == Self::spec_trait_id(),
            match r.value {
                TraitValue::Text(s) => s@ == name@,
                _ => false,
            },
    {
        text_trait(Self::trait_id(), name)
    }
}

/// Allows a serialized object property name in an XML document to differ from
/// the name used in the model.
pub struct XmlNameTrait {
    pub name: String,
}

impl StaticTraitId for XmlNameTrait {
    open spec fn spec_trait_id() -> Seq<char> {
        prelude_id("xmlName"@)
    }

    fn trait_id() -> (r: ShapeId) {
        prelude_shape_id("xmlName")
    }
}

impl XmlNameTrait {
    /// An `@xmlName` trait with the given name.
    pub fn new(name: &str) -> (r: TraitRef)
        ensures
            r.id@.id == Self::spec_trait_id(),
            match r.value {
                TraitValue::Text(s) => s@ == name@,
                _ => false,
            },
    {
        text_trait(Self::trait_id(), name)
    }
}

/// Describes the contents of a blob or string shape using a media type.
pub struct MediaTypeTrait {
    pub media_type: String,
}

impl StaticTraitId for MediaTypeTrait {
    open spec fn spec_trait_id() -> Seq<char> {
        prelude_id("mediaType"@)
    }

    fn trait_id() -> (r: ShapeId) {
        prelude_shape_id("mediaType")
    }
}

impl MediaTypeTrait {
    /// A `@mediaType` trait with the given media type.
    pub fn new(media_type: &str) -> (r: TraitRef)
        ensures
            r.id@.id == Self::spec_trait_id(),
            match r.value {
                TraitValue::Text(s) => s@ == media_type@,
                _ => false,
            },
    {
        text_trait(Self::trait_id(), media_type)
    }
}

fn text_trait(id: ShapeId, text: &str) -> (r: TraitRef)
    ensures
        r.id@ == id@,
        match r.value {
            TraitValue::Text(s) => s@ == text@,
            _ => false,
        },
{
    trait_ref(SmithyTrait { id, value: TraitValue::Text(owned(text)) })
}

// ============================================================================
// Traits with other values
// ============================================================================

/// Provides a structure member with a default value.
pub struct DefaultTrait(pub Document);

impl StaticTraitId for DefaultTrait {
    open spec fn spec_trait_id() -> Seq<char> {
        prelude_id("default"@)
    }

    fn trait_id() -> (r: ShapeId) {
        prelude_shape_id("default")
    }
}

impl DefaultTrait {
    /// A `@default` trait holding the given value.
    pub fn new(value: Document) -> (r: TraitRef)
        ensures
            r.id@.id == Self::spec_trait_id(),
            r.value == TraitValue::Default(value),
    {
        trait_ref(SmithyTrait { id: Self::trait_id(), value: TraitValue::Default(value) })
    }
}

/// Indicates that a structure shape represents an error.
#[derive(Debug, Clone, Copy, PartialEq, Eq, Structural)]
pub enum ErrorTrait {
    /// Error originates from client
    Client,
    /// Error originates from server
    Server,
}

impl StaticTraitId for ErrorTrait {
    open spec fn spec_trait_id() -> Seq<char> {
        prelude_id("error"@)
    }

    fn trait_id() -> (r: ShapeId) {
        prelude_shape_id("error")
    }
}

impl ErrorTrait {
    /// The string value of the fault: `client` or `server`.
    pub fn value(&self) -> (r: &'static str)
        ensures
            r@ == match self {
                ErrorTrait::Client => "client"@,
                ErrorTrait::Server => "server"@,
            },
    {
        match self {
            ErrorTrait::Client => "client",
            ErrorTrait::Server => "server",
        }
    }

    /// An `@error` trait.
    pub fn to_trait(self) -> (r: TraitRef)
        ensures
            r.id@.id == Self::spec_trait_id(),
            r.value == TraitValue::Error(self),
    {
        trait_ref(SmithyTrait { id: Self::trait_id(), value: TraitValue::Error(self) })
    }
}

/// Whether an error originates from the client or the server.
#[derive(Debug, Clone, Copy, PartialEq, Eq, Structural)]
pub enum ErrorFault {
    Client,
    Server,
}

impl ErrorFault {
    /// The name of the fault.
    pub fn name(&self) -> (r: &'static str)
        ensures
            r@ == match self {
                ErrorFault::Client => "client"@,
                ErrorFault::Server => "server"@,
            },
    {
        match self {
            ErrorFault::Client => "client",
            ErrorFault::Server => "server",
        }
    }
}

/// Defines an HTTP response code for an operation error.
#[derive(Debug, Clone, Copy, PartialEq, Eq, Structural)]
pub struct HttpErrorTrait(pub i32);

impl StaticTraitId for HttpErrorTrait {
    open spec fn spec_trait_id() -> Seq<char> {
        prelude_id("httpError"@)
    }

    fn trait_id() -> (r: ShapeId) {
        prelude_shape_id("httpError")
    }
}

impl HttpErrorTrait {
    /// An `@httpError` trait with the given code.
    pub fn new(code: i32) -> (r: TraitRef)
        ensures
            r.id@.id == Self::spec_trait_id(),
            r.value == TraitValue::Integer(code),
    {
        trait_ref(SmithyTrait { id: Self::trait_id(), value: TraitValue::Integer(code) })
    }

    /// The HTTP code.
    pub fn code(&self) -> (r: i32)
        ensures
            r == self.0,
    {
        self.0
    }
}

/// The HTTP code of an error, as the `@httpError` trait carries it.
#[derive(Debug, Clone, Copy, PartialEq, Eq, Structural)]
pub struct HttpCode {
    code: i32,
}

impl StaticTraitId for HttpCode {
    open spec fn spec_trait_id() -> Seq<char> {
        prelude_id("httpError"@)
    }

    fn trait_id() -> (r: ShapeId) {
        prelude_shape_id("httpError")
    }
}

impl HttpCode {
    /// The code, as a specification value.
    pub closed spec fn spec_code(&self) -> i32 {
        self.code
    }

    /// An HTTP code.
    pub fn new(code: i32) -> (r: HttpCode)
        ensures
            r.spec_code() == code,
    {
        HttpCode { code }
    }

    /// The HTTP code.
    pub fn code(&self) -> (r: i32)
        ensures
            r == self.spec_code(),
    {
        self.code
    }

    /// The `@httpError` trait with this code.
    pub fn to_trait(&self) -> (r: TraitRef)
        ensures
            r.id@.id == Self::spec_trait_id(),
            r.value == TraitValue::Integer(self.spec_code()),
    {
        trait_ref(SmithyTrait { id: Self::trait_id(), value: TraitValue::Integer(self.code) })
    }
}

// ============================================================================
// Constraint traits
// ============================================================================

/// Length constraint for lists, maps, and strings.
#[derive(Debug, Clone, Copy, PartialEq, Eq, Structural)]
pub struct LengthTrait {
    pub min: Option<i64>,
    pub max: Option<i64>,
}

impl StaticTraitId for LengthTrait {
    open spec fn spec_trait_id() -> Seq<char> {
        prelude_id("length"@)
    }

    fn trait_id() -> (r: ShapeId) {
        prelude_shape_id("length")
    }
}

/// The lower bound of a length constraint: `min`, or 0 when unset.
pub open spec fn length_min(l: LengthTrait) -> usize {
    match l.min {
        Some(m) => m as usize,
        None => 0,
    }
}

/// The upper bound of a length constraint: `max`, or `usize::MAX` when unset.
pub open spec fn length_max(l: LengthTrait) -> usize {
    match l.max {
        Some(m) => m as usize,
        None => usize::MAX,
    }
}

impl LengthTrait {
    /// A length constraint with the given bounds.
    pub fn new(min: Option<i64>, max: Option<i64>) -> (r: LengthTrait)
        ensures
            r.min == min,
            r.max == max,
    {
        LengthTrait { min, max }
    }

    /// Get the minimum length for this constraint (0 if not set).
    pub fn min(&self) -> (r: usize)
        ensures
            r == length_min(*self),
    {
        match self.min {
            Some(m) => m as usize,
            None => 0,
        }
    }

    /// Get the maximum length for this constraint (`usize::MAX` if not set).
    pub fn max(&self) -> (r: usize)
        ensures
            r == length_max(*self),
    {
        match self.max {
            Some(m) => m as usize,
            None => usize::MAX,
        }
    }

    /// A `@length` trait.
    pub fn to_trait(self) -> (r: TraitRef)
        ensures
            r.id@.id == Self::spec_trait_id(),
            r.value == TraitValue::Length(self),
    {
        trait_ref(SmithyTrait { id: Self::trait_id(), value: TraitValue::Length(self) })
    }
}

/// Defines a range constraint for numeric values.
#[derive(Debug, Clone, Copy, PartialEq, Eq, Structural)]
pub struct RangeTrait {
    pub min: Option<Decimal>,
    pub max: Option<Decimal>,
}

impl StaticTraitId for RangeTrait {
    open spec fn spec_trait_id() -> Seq<char> {
        prelude_id("range"@)
    }

    fn trait_id() -> (r: ShapeId) {
        prelude_shape_id("range")
    }
}

/// The lower bound of a range: `min`, or zero when unset.
pub open spec fn range_min(r: RangeTrait) -> Decimal {
    match r.min {
        Some(m) => m,
        None => Decimal { unscaled: 0, scale: 0 },
    }
}

/// The upper bound of a range: `max`, or `u64::MAX` when unset.
pub open spec fn range_max(r: RangeTrait) -> Decimal {
    match r.max {
        Some(m) => m,
        None => Decimal { unscaled: 18446744073709551615, scale: 0 },
    }
}

impl RangeTrait {
    /// A range constraint with the given bounds.
    pub fn new(min: Option<Decimal>, max: Option<Decimal>) -> (r: RangeTrait)
        ensures
            r.min == min,
            r.max == max,
    {
        RangeTrait { min, max }
    }

    /// Get the minimum value allowed by this range constraint (defaults to zero).
    pub fn min(&self) -> (r: Decimal)
        ensures
            r == range_min(*self),
    {
        match self.min {
            Some(m) => m,
            None => Decimal { unscaled: 0, scale: 0 },
        }
    }

    /// Get the maximum value allowed by this range constraint (defaults to `u64::MAX`).
    pub fn max(&self) -> (r: Decimal)
        ensures
            r == range_max(*self),
    {
        match self.max {
            Some(m) => m,
            None => Decimal { unscaled: 18446744073709551615, scale: 0 },
        }
    }

    /// A `@range` trait.
    pub fn to_trait(self) -> (r: TraitRef)
        ensures
            r.id@.id == Self::spec_trait_id(),
            r.value == TraitValue::Range(self),
    {
        trait_ref(SmithyTrait { id: Self::trait_id(), value: TraitValue::Range(self) })
    }
}

/// Whether the regular expression `pattern` compiles.
pub uninterp spec fn regex_compiles(pattern: Seq<char>) -> bool;

/// Whether the regular expression `pattern` finds a match anywhere in `value`.
pub uninterp spec fn regex_finds(pattern: Seq<char>, value: Seq<char>) -> bool;

/// The text that `regex::Error` displays when `pattern` does not compile.
pub uninterp spec fn regex_error_text(pattern: Seq<char>) -> Seq<char>;

/// Calls `regex::Regex::new` on the pattern: nothing when it compiles, otherwise the
/// text of the error it returns.
#[verifier::external_body]
fn pattern_error(pattern: &str) -> (r: Option<String>)
    ensures
        r is None <==> regex_compiles(pattern@),
        r matches Some(m) ==> m@ == regex_error_text(pattern@),
{
    match regex::Regex::new(pattern) {
        Ok(_) => None,
        Err(e) => Some(e.to_string()),
    }
}

/// Compiles the pattern with `regex::Regex::new` and calls `Regex::find` on
/// `value`: the result says whether a match was found.
#[verifier::external_body]
pub(crate) fn pattern_finds(pattern: &str, value: &str) -> (r: bool)
    requires
        regex_compiles(pattern@),
    ensures
        r == regex_finds(pattern@, value@),
{
    match regex::Regex::new(pattern) {
        Ok(re) => re.find(value).is_some(),
        Err(_) => false,
    }
}

/// Regex pattern used to constrain string values.
#[derive(Debug)]
pub struct PatternTrait {
    pattern: String,
}

impl StaticTraitId for PatternTrait {
    open spec fn spec_trait_id() -> Seq<char> {
        prelude_id("pattern"@)
    }

    fn trait_id() -> (r: ShapeId) {
        prelude_shape_id("pattern")
    }
}

impl PatternTrait {
    /// The text of the pattern.
    pub closed spec fn spec_pattern(&self) -> Seq<char> {
        self.pattern@
    }

    /// Every pattern trait holds a pattern that compiles.
    #[verifier::type_invariant]
    closed spec fn compiles(&self) -> bool {
        regex_compiles(self.pattern@)
    }

    /// Create a new pattern trait; when the pattern does not compile, the error holds
    /// the regex error's text as its one custom error.
    pub fn new(pattern: &str) -> (r: Result<PatternTrait, ValidationErrors>)
        ensures
            r is Ok <==> regex_compiles(pattern@),
            match r {
                Ok(p) => p.spec_pattern() == pattern@,
                Err(e) => e.spec_errors() == seq![
                    (Seq::<PathView>::empty(), ErrorKind::Custom(regex_error_text(pattern@))),
                ],
            },
    {
        match pattern_error(pattern) {
            None => Ok(PatternTrait { pattern: owned(pattern) }),
            Some(msg) => Err(ValidationErrors::custom(msg.as_str())),
        }
    }

    /// The text of the pattern.
    pub fn pattern(&self) -> (r: &str)
        ensures
            r@ == self.spec_pattern(),
    {
        self.pattern.as_str()
    }

    /// Whether the pattern finds a match in `value`.
    pub fn finds(&self, value: &str) -> (r: bool)
        ensures
            r == regex_finds(self.spec_pattern(), value@),
    {
        proof {
            use_type_invariant(self);
        }
        pattern_finds(self.pattern.as_str(), value)
    }

    /// A `@pattern` trait.
    pub fn to_trait(self) -> (r: TraitRef)
        ensures
            r.id@.id == Self::spec_trait_id(),
            r.value == TraitValue::Pattern(self),
    {
        trait_ref(SmithyTrait { id: Self::trait_id(), value: TraitValue::Pattern(self) })
    }
}

/// Options for API key locations.
#[derive(Debug, Clone, Copy, PartialEq, Eq, Structural)]
pub enum HttpApiKeyLocations {
    /// Key is in Http Headers
    Header,
    /// Key is in Query params
    Query,
}

impl HttpApiKeyLocations {
    /// The string value of the location.
    pub fn value(&self) -> (r: &'static str)
        ensures
            r@ == match self {
                HttpApiKeyLocations::Header => "header"@,
                HttpApiKeyLocations::Query => "query"@,
            },
    {
        match self {
            HttpApiKeyLocations::Header => "header",
            HttpApiKeyLocations::Query => "query",
        }
    }
}

/// A service supports authentication with an API key sent in a header or query parameter.
#[derive(Debug, Clone)]
pub struct HttpApiKeyAuthTrait {
    pub name: String,
    pub in_location: HttpApiKeyLocations,
    pub scheme: Option<String>,
}

} // verus!
