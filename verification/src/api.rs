//! Data of the traits defined in the `smithy.api` namespace.
use vstd::prelude::*;

use crate::numbers::Decimal;
use crate::prelude::{prelude_id, prelude_shape_id};
use crate::shapes::ShapeId;
use crate::traits::StaticTraitId;

verus! {

/// Indicates that the default trait was added to a member.
#[derive(Debug)]
pub struct AddedDefaultTrait;

impl StaticTraitId for AddedDefaultTrait {
    open spec fn spec_trait_id() -> Seq<char> {
        prelude_id("addedDefault"@)
    }

    fn trait_id() -> (r: ShapeId) {
        prelude_shape_id("addedDefault")
    }
}

/// Marks a trait as an auth scheme defining trait.
#[derive(Debug)]
pub struct AuthDefinitionTrait {
    /// The list of traits that auth implementations must understand.
    pub traits: Option<Vec<String>>,
}

impl StaticTraitId for AuthDefinitionTrait {
    open spec fn spec_trait_id() -> Seq<char> {
        prelude_id("authDefinition"@)
    }

    fn trait_id() -> (r: ShapeId) {
        prelude_shape_id("authDefinition")
    }
}

/// Used only in Smithy 1.0 to indicate that a shape is boxed.
#[derive(Debug)]
pub struct BoxTrait;

impl StaticTraitId for BoxTrait {
    open spec fn spec_trait_id() -> Seq<char> {
        prelude_id("box"@)
    }

    fn trait_id() -> (r: ShapeId) {
        prelude_shape_id("box")
    }
}

/// Requires that non-authoritative generators treat a member as nullable.
#[derive(Debug)]
pub struct ClientOptionalTrait;

impl StaticTraitId for ClientOptionalTrait {
    open spec fn spec_trait_id() -> Seq<char> {
        prelude_id("clientOptional"@)
    }

    fn trait_id() -> (r: ShapeId) {
        prelude_shape_id("clientOptional")
    }
}

/// Defines how a service supports cross-origin resource sharing.
#[derive(Debug)]
pub struct CorsTrait {
    /// The origin from which browser script-originating requests are allowed.
    pub origin: String,
    /// The maximum number of seconds browsers may cache a preflight response.
    pub max_age: i32,
    /// Extra headers allowed in requests.
    pub additional_allowed_headers: Option<Vec<String>>,
    /// Extra headers exposed in responses.
    pub additional_exposed_headers: Option<Vec<String>>,
}

impl StaticTraitId for CorsTrait {
    open spec fn spec_trait_id() -> Seq<char> {
        prelude_id("cors"@)
    }

    fn trait_id() -> (r: ShapeId) {
        prelude_shape_id("cors")
    }
}

/// Marks a shape or member as deprecated.
#[derive(Debug)]
pub struct DeprecatedTrait {
    /// The reason for deprecation.
    pub message: Option<String>,
    /// When the shape was deprecated.
    pub since: Option<String>,
}

impl StaticTraitId for DeprecatedTrait {
    open spec fn spec_trait_id() -> Seq<char> {
        prelude_id("deprecated"@)
    }

    fn trait_id() -> (r: ShapeId) {
        prelude_shape_id("deprecated")
    }
}

/// Configures a custom operation endpoint.
#[derive(Debug)]
pub struct EndpointTrait {
    /// A host prefix pattern for the operation.
    pub host_prefix: String,
}

impl StaticTraitId for EndpointTrait {
    open spec fn spec_trait_id() -> Seq<char> {
        prelude_id("endpoint"@)
    }

    fn trait_id() -> (r: ShapeId) {
        prelude_shape_id("endpoint")
    }
}

/// Marks a member as a header of an event.
#[derive(Debug)]
pub struct EventHeaderTrait;

impl StaticTraitId for EventHeaderTrait {
    open spec fn spec_trait_id() -> Seq<char> {
        prelude_id("eventHeader"@)
    }

    fn trait_id() -> (r: ShapeId) {
        prelude_shape_id("eventHeader")
    }
}

/// Marks a member as the payload of an event.
#[derive(Debug)]
pub struct EventPayloadTrait;

impl StaticTraitId for EventPayloadTrait {
    open spec fn spec_trait_id() -> Seq<char> {
        prelude_id("eventPayload"@)
    }

    fn trait_id() -> (r: ShapeId) {
        prelude_shape_id("eventPayload")
    }
}

/// Binds a top-level operation input member to a label in the host prefix.
#[derive(Debug)]
pub struct HostLabelTrait;

impl StaticTraitId for HostLabelTrait {
    open spec fn spec_trait_id() -> Seq<char> {
        prelude_id("hostLabel"@)
    }

    fn trait_id() -> (r: ShapeId) {
        prelude_shape_id("hostLabel")
    }
}

/// Indicates that a service supports HTTP Basic Authentication.
#[derive(Debug)]
pub struct HttpBasicAuthTrait;

impl StaticTraitId for HttpBasicAuthTrait {
    open spec fn spec_trait_id() -> Seq<char> {
        prelude_id("httpBasicAuth"@)
    }

    fn trait_id() -> (r: ShapeId) {
        prelude_shape_id("httpBasicAuth")
    }
}

/// Indicates that a service supports HTTP Bearer Authentication.
#[derive(Debug)]
pub struct HttpBearerAuthTrait;

impl StaticTraitId for HttpBearerAuthTrait {
    open spec fn spec_trait_id() -> Seq<char> {
        prelude_id("httpBearerAuth"@)
    }

    fn trait_id() -> (r: ShapeId) {
        prelude_shape_id("httpBearerAuth")
    }
}

/// Indicates that an operation requires a checksum in its HTTP request.
#[derive(Debug)]
pub struct HttpChecksumRequiredTrait;

impl StaticTraitId for HttpChecksumRequiredTrait {
    open spec fn spec_trait_id() -> Seq<char> {
        prelude_id("httpChecksumRequired"@)
    }

    fn trait_id() -> (r: ShapeId) {
        prelude_shape_id("httpChecksumRequired")
    }
}

/// Indicates that a service supports HTTP Digest Authentication.
#[derive(Debug)]
pub struct HttpDigestAuthTrait;

impl StaticTraitId for HttpDigestAuthTrait {
    open spec fn spec_trait_id() -> Seq<char> {
        prelude_id("httpDigestAuth"@)
    }

    fn trait_id() -> (r: ShapeId) {
        prelude_shape_id("httpDigestAuth")
    }
}

/// Configures the HTTP bindings of an operation.
#[derive(Debug)]
pub struct HttpTrait {
    /// The HTTP method of the operation.
    pub method: String,
    /// The URI pattern of the operation.
    pub uri: String,
    /// The HTTP status code of a successful response.
    pub code: i32,
}

impl StaticTraitId for HttpTrait {
    open spec fn spec_trait_id() -> Seq<char> {
        prelude_id("http"@)
    }

    fn trait_id() -> (r: ShapeId) {
        prelude_shape_id("http")
    }
}

/// Binds an operation input member to an HTTP label.
#[derive(Debug)]
pub struct HttpLabelTrait;

impl StaticTraitId for HttpLabelTrait {
    open spec fn spec_trait_id() -> Seq<char> {
        prelude_id("httpLabel"@)
    }

    fn trait_id() -> (r: ShapeId) {
        prelude_shape_id("httpLabel")
    }
}

/// Binds a single member to the body of an HTTP message.
#[derive(Debug)]
pub struct HttpPayloadTrait;

impl StaticTraitId for HttpPayloadTrait {
    open spec fn spec_trait_id() -> Seq<char> {
        prelude_id("httpPayload"@)
    }

    fn trait_id() -> (r: ShapeId) {
        prelude_shape_id("httpPayload")
    }
}

/// Binds a map of key-value pairs to query string parameters.
#[derive(Debug)]
pub struct HttpQueryParamsTrait;

impl StaticTraitId for HttpQueryParamsTrait {
    open spec fn spec_trait_id() -> Seq<char> {
        prelude_id("httpQueryParams"@)
    }

    fn trait_id() -> (r: ShapeId) {
        prelude_shape_id("httpQueryParams")
    }
}

/// Binds a member to the HTTP response status code.
#[derive(Debug)]
pub struct HttpResponseCodeTrait;

impl StaticTraitId for HttpResponseCodeTrait {
    open spec fn spec_trait_id() -> Seq<char> {
        prelude_id("httpResponseCode"@)
    }

    fn trait_id() -> (r: ShapeId) {
        prelude_shape_id("httpResponseCode")
    }
}

/// Defines a member as an idempotency token.
#[derive(Debug)]
pub struct IdempotencyTokenTrait;

impl StaticTraitId for IdempotencyTokenTrait {
    open spec fn spec_trait_id() -> Seq<char> {
        prelude_id("idempotencyToken"@)
    }

    fn trait_id() -> (r: ShapeId) {
        prelude_shape_id("idempotencyToken")
    }
}

/// Indicates that an operation is idempotent.
#[derive(Debug)]
pub struct IdempotentTrait;

impl StaticTraitId for IdempotentTrait {
    open spec fn spec_trait_id() -> Seq<char> {
        prelude_id("idempotent"@)
    }

    fn trait_id() -> (r: ShapeId) {
        prelude_shape_id("idempotent")
    }
}

/// Indicates that a string value must be a valid shape id.
#[derive(Debug)]
pub struct IdRefTrait {
    /// Selector the referenced shape must match.
    pub selector: String,
    /// Whether a missing shape is an error.
    pub fail_when_missing: Option<bool>,
    /// Custom error message.
    pub error_message: Option<String>,
}

impl StaticTraitId for IdRefTrait {
    open spec fn spec_trait_id() -> Seq<char> {
        prelude_id("idRef"@)
    }

    fn trait_id() -> (r: ShapeId) {
        prelude_shape_id("idRef")
    }
}

/// Specializes a structure for use only as the input of an operation.
#[derive(Debug)]
pub struct InputTrait;

impl StaticTraitId for InputTrait {
    open spec fn spec_trait_id() -> Seq<char> {
        prelude_id("input"@)
    }

    fn trait_id() -> (r: ShapeId) {
        prelude_shape_id("input")
    }
}

/// Shapes marked with the internal trait are meant only for internal use.
#[derive(Debug)]
pub struct InternalTrait;

impl StaticTraitId for InternalTrait {
    open spec fn spec_trait_id() -> Seq<char> {
        prelude_id("internal"@)
    }

    fn trait_id() -> (r: ShapeId) {
        prelude_shape_id("internal")
    }
}

/// Indicates that a shape is a mixin.
#[derive(Debug)]
pub struct MixinTrait {
    /// Traits that are not copied onto shapes that use the mixin.
    pub local_traits: Option<Vec<String>>,
}

impl StaticTraitId for MixinTrait {
    open spec fn spec_trait_id() -> Seq<char> {
        prelude_id("mixin"@)
    }

    fn trait_id() -> (r: ShapeId) {
        prelude_shape_id("mixin")
    }
}

/// Adjusts the resource property mapping of a lifecycle operation to the targeted member.
#[derive(Debug)]
pub struct NestedPropertiesTrait;

impl StaticTraitId for NestedPropertiesTrait {
    open spec fn spec_trait_id() -> Seq<char> {
        prelude_id("nestedProperties"@)
    }

    fn trait_id() -> (r: ShapeId) {
        prelude_shape_id("nestedProperties")
    }
}

/// Indicates that the put lifecycle operation cannot replace a resource.
#[derive(Debug)]
pub struct NoReplaceTrait;

impl StaticTraitId for NoReplaceTrait {
    open spec fn spec_trait_id() -> Seq<char> {
        prelude_id("noReplace"@)
    }

    fn trait_id() -> (r: ShapeId) {
        prelude_shape_id("noReplace")
    }
}

/// Indicates that a member is not a resource property.
#[derive(Debug)]
pub struct NotPropertyTrait;

impl StaticTraitId for NotPropertyTrait {
    open spec fn spec_trait_id() -> Seq<char> {
        prelude_id("notProperty"@)
    }

    fn trait_id() -> (r: ShapeId) {
        prelude_shape_id("notProperty")
    }
}

/// Indicates that an operation may be invoked without authentication.
#[derive(Debug)]
pub struct OptionalAuthTrait;

impl StaticTraitId for OptionalAuthTrait {
    open spec fn spec_trait_id() -> Seq<char> {
        prelude_id("optionalAuth"@)
    }

    fn trait_id() -> (r: ShapeId) {
        prelude_shape_id("optionalAuth")
    }
}

/// Specializes a structure for use only as the output of an operation.
#[derive(Debug)]
pub struct OutputTrait;

impl StaticTraitId for OutputTrait {
    open spec fn spec_trait_id() -> Seq<char> {
        prelude_id("output"@)
    }

    fn trait_id() -> (r: ShapeId) {
        prelude_shape_id("output")
    }
}

/// Marks an operation as paginated.
#[derive(Debug)]
pub struct PaginatedTrait {
    /// The member of the input holding the continuation token.
    pub input_token: Option<String>,
    /// The member of the output holding the continuation token.
    pub output_token: Option<String>,
    /// The member of the output holding the paginated results.
    pub items: Option<String>,
    /// The member of the input limiting the number of results.
    pub page_size: Option<String>,
}

impl StaticTraitId for PaginatedTrait {
    open spec fn spec_trait_id() -> Seq<char> {
        prelude_id("paginated"@)
    }

    fn trait_id() -> (r: ShapeId) {
        prelude_shape_id("paginated")
    }
}

/// Prevents models defined in a different namespace from referencing the shape.
#[derive(Debug)]
pub struct PrivateTrait;

impl StaticTraitId for PrivateTrait {
    open spec fn spec_trait_id() -> Seq<char> {
        prelude_id("private"@)
    }

    fn trait_id() -> (r: ShapeId) {
        prelude_shape_id("private")
    }
}

/// Configures a custom resource property mapping.
#[derive(Debug)]
pub struct PropertyTrait {
    /// The name of the resource property.
    pub name: Option<String>,
}

impl StaticTraitId for PropertyTrait {
    open spec fn spec_trait_id() -> Seq<char> {
        prelude_id("property"@)
    }

    fn trait_id() -> (r: ShapeId) {
        prelude_shape_id("property")
    }
}

/// Marks a trait as a protocol defining trait.
#[derive(Debug)]
pub struct ProtocolDefinitionTrait {
    /// Traits that protocol implementations must understand.
    pub traits: Option<Vec<String>>,
    /// Whether inline documents are unsupported.
    pub no_inline_document_support: Option<bool>,
}

impl StaticTraitId for ProtocolDefinitionTrait {
    open spec fn spec_trait_id() -> Seq<char> {
        prelude_id("protocolDefinition"@)
    }

    fn trait_id() -> (r: ShapeId) {
        prelude_shape_id("protocolDefinition")
    }
}

/// Indicates that an operation is effectively read-only.
#[derive(Debug)]
pub struct ReadonlyTrait;

impl StaticTraitId for ReadonlyTrait {
    open spec fn spec_trait_id() -> Seq<char> {
        prelude_id("readonly"@)
    }

    fn trait_id() -> (r: ShapeId) {
        prelude_shape_id("readonly")
    }
}

/// Indicates that a structure member should be set.
#[derive(Debug)]
pub struct RecommendedTrait {
    /// Why the member is recommended.
    pub reason: Option<String>,
}

impl StaticTraitId for RecommendedTrait {
    open spec fn spec_trait_id() -> Seq<char> {
        prelude_id("recommended"@)
    }

    fn trait_id() -> (r: ShapeId) {
        prelude_shape_id("recommended")
    }
}

/// Indicates that an operation supports compressing its request body.
#[derive(Debug)]
pub struct RequestCompressionTrait {
    /// The supported compression algorithms.
    pub encodings: Vec<String>,
}

impl StaticTraitId for RequestCompressionTrait {
    open spec fn spec_trait_id() -> Seq<char> {
        prelude_id("requestCompression"@)
    }

    fn trait_id() -> (r: ShapeId) {
        prelude_shape_id("requestCompression")
    }
}

/// Indicates that a streaming blob must be finite and have a known size.
#[derive(Debug)]
pub struct RequiresLengthTrait;

impl StaticTraitId for RequiresLengthTrait {
    open spec fn spec_trait_id() -> Seq<char> {
        prelude_id("requiresLength"@)
    }

    fn trait_id() -> (r: ShapeId) {
        prelude_shape_id("requiresLength")
    }
}

/// Indicates that an error may be retried by the client.
#[derive(Debug)]
pub struct RetryableTrait {
    /// Whether the error is a throttling error.
    pub throttling: Option<bool>,
}

impl StaticTraitId for RetryableTrait {
    open spec fn spec_trait_id() -> Seq<char> {
        prelude_id("retryable"@)
    }

    fn trait_id() -> (r: ShapeId) {
        prelude_shape_id("retryable")
    }
}

/// Indicates that a shape is unstable and may change in the future.
#[derive(Debug)]
pub struct UnstableTrait;

impl StaticTraitId for UnstableTrait {
    open spec fn spec_trait_id() -> Seq<char> {
        prelude_id("unstable"@)
    }

    fn trait_id() -> (r: ShapeId) {
        prelude_shape_id("unstable")
    }
}

/// Unwraps the values of a list or map into the containing structure.
#[derive(Debug)]
pub struct XmlFlattenedTrait;

impl StaticTraitId for XmlFlattenedTrait {
    open spec fn spec_trait_id() -> Seq<char> {
        prelude_id("xmlFlattened"@)
    }

    fn trait_id() -> (r: ShapeId) {
        prelude_shape_id("xmlFlattened")
    }
}

/// Adds an XML namespace to an XML element.
#[derive(Debug)]
pub struct XmlNamespaceTrait {
    /// The namespace URI.
    pub uri: String,
    /// The namespace prefix.
    pub prefix: Option<String>,
}

impl StaticTraitId for XmlNamespaceTrait {
    open spec fn spec_trait_id() -> Seq<char> {
        prelude_id("xmlNamespace"@)
    }

    fn trait_id() -> (r: ShapeId) {
        prelude_shape_id("xmlNamespace")
    }
}

/// Marks a shape as a trait.
#[derive(Debug)]
pub struct TraitTrait {
    /// The shapes the trait may be applied to.
    pub selector: Option<String>,
    /// Which members may carry the trait.
    pub structurally_exclusive: Option<StructurallyExclusive>,
    /// Traits that conflict with this one.
    pub conflicts: Option<Vec<String>>,
    /// Rules for breaking changes of the trait.
    pub breaking_changes: Option<Vec<TraitDiffRule>>,
}

impl StaticTraitId for TraitTrait {
    open spec fn spec_trait_id() -> Seq<char> {
        prelude_id("trait"@)
    }

    fn trait_id() -> (r: ShapeId) {
        prelude_shape_id("trait")
    }
}

/// Defines the ordered list of supported authentication schemes.
#[derive(Debug)]
pub struct AuthTrait(pub Vec<String>);

impl StaticTraitId for AuthTrait {
    open spec fn spec_trait_id() -> Seq<char> {
        prelude_id("auth"@)
    }

    fn trait_id() -> (r: ShapeId) {
        prelude_shape_id("auth")
    }
}

/// Provides named links to external documentation.
#[derive(Debug)]
pub struct ExternalDocumentationTrait(pub Vec<(String, String)>);

impl StaticTraitId for ExternalDocumentationTrait {
    open spec fn spec_trait_id() -> Seq<char> {
        prelude_id("externalDocumentation"@)
    }

    fn trait_id() -> (r: ShapeId) {
        prelude_shape_id("externalDocumentation")
    }
}

/// Suppresses validation events by id.
#[derive(Debug)]
pub struct SuppressTrait(pub Vec<String>);

impl StaticTraitId for SuppressTrait {
    open spec fn spec_trait_id() -> Seq<char> {
        prelude_id("suppress"@)
    }

    fn trait_id() -> (r: ShapeId) {
        prelude_shape_id("suppress")
    }
}

/// Tags a shape with arbitrary tag names.
#[derive(Debug)]
pub struct TagsTrait(pub Vec<String>);

impl StaticTraitId for TagsTrait {
    open spec fn spec_trait_id() -> Seq<char> {
        prelude_id("tags"@)
    }

    fn trait_id() -> (r: ShapeId) {
        prelude_shape_id("tags")
    }
}

/// Defines the version or date in which a shape or member was added.
#[derive(Debug)]
pub struct SinceTrait(pub String);

impl StaticTraitId for SinceTrait {
    open spec fn spec_trait_id() -> Seq<char> {
        prelude_id("since"@)
    }

    fn trait_id() -> (r: ShapeId) {
        prelude_shape_id("since")
    }
}

/// Binds a structure member to an HTTP header.
#[derive(Debug)]
pub struct HttpHeaderTrait(pub String);

impl StaticTraitId for HttpHeaderTrait {
    open spec fn spec_trait_id() -> Seq<char> {
        prelude_id("httpHeader"@)
    }

    fn trait_id() -> (r: ShapeId) {
        prelude_shape_id("httpHeader")
    }
}

/// Binds an operation input member to a resource identifier.
#[derive(Debug)]
pub struct ResourceIdentifierTrait(pub String);

impl StaticTraitId for ResourceIdentifierTrait {
    open spec fn spec_trait_id() -> Seq<char> {
        prelude_id("resourceIdentifier"@)
    }

    fn trait_id() -> (r: ShapeId) {
        prelude_shape_id("resourceIdentifier")
    }
}

/// Binds a map of key-value pairs to prefixed HTTP headers.
#[derive(Debug)]
pub struct HttpPrefixHeadersTrait(pub String);

impl StaticTraitId for HttpPrefixHeadersTrait {
    open spec fn spec_trait_id() -> Seq<char> {
        prelude_id("httpPrefixHeaders"@)
    }

    fn trait_id() -> (r: ShapeId) {
        prelude_shape_id("httpPrefixHeaders")
    }
}

/// Adds documentation to a shape or member.
#[derive(Debug)]
pub struct DocumentationTrait(pub String);

impl StaticTraitId for DocumentationTrait {
    open spec fn spec_trait_id() -> Seq<char> {
        prelude_id("documentation"@)
    }

    fn trait_id() -> (r: ShapeId) {
        prelude_shape_id("documentation")
    }
}

/// Defines a proper name for a service or resource shape.
#[derive(Debug)]
pub struct TitleTrait(pub String);

impl StaticTraitId for TitleTrait {
    open spec fn spec_trait_id() -> Seq<char> {
        prelude_id("title"@)
    }

    fn trait_id() -> (r: ShapeId) {
        prelude_shape_id("title")
    }
}

/// Binds an operation input member to a query string parameter.
#[derive(Debug)]
pub struct HttpQueryTrait(pub String);

impl StaticTraitId for HttpQueryTrait {
    open spec fn spec_trait_id() -> Seq<char> {
        prelude_id("httpQuery"@)
    }

    fn trait_id() -> (r: ShapeId) {
        prelude_shape_id("httpQuery")
    }
}

/// An enum definition for the enum trait.
#[derive(Debug)]
pub struct EnumDefinition {
    pub value: String,
    pub name: Option<String>,
    pub documentation: Option<String>,
    pub tags: Option<Vec<String>>,
    pub deprecated: Option<bool>,
}

/// A reference to a resource.
#[derive(Debug)]
pub struct Reference {
    pub resource: String,
    pub ids: Option<Vec<(String, String)>>,
    pub service: Option<String>,
    pub rel: Option<String>,
}

/// A rule describing a breaking change of a trait.
#[derive(Debug)]
pub struct TraitDiffRule {
    pub path: Option<String>,
    pub change: TraitChangeType,
    pub severity: Severity,
    pub message: Option<String>,
}

/// A validator of trait values.
#[derive(Debug)]
pub struct TraitValidator {
    pub selector: String,
    pub message: Option<String>,
    pub severity: Severity,
}

/// The severity of a validation event.
#[derive(Debug, Clone, Copy, PartialEq, Eq, Structural)]
pub enum Severity {
    Note,
    Warning,
    Danger,
    Error,
}

impl Severity {
    /// The value of the variant in the model.
    pub fn value(&self) -> (r: &'static str)
        ensures
            r@ == match self {
                Severity::Note => "NOTE"@,
                Severity::Warning => "WARNING"@,
                Severity::Danger => "DANGER"@,
                Severity::Error => "ERROR"@,
            },
    {
        match self {
            Severity::Note => "NOTE",
            Severity::Warning => "WARNING",
            Severity::Danger => "DANGER",
            Severity::Error => "ERROR",
        }
    }
}

/// Which members of a structure may carry a trait.
#[derive(Debug, Clone, Copy, PartialEq, Eq, Structural)]
pub enum StructurallyExclusive {
    Member,
    Target,
}

impl StructurallyExclusive {
    /// The value of the variant in the model.
    pub fn value(&self) -> (r: &'static str)
        ensures
            r@ == match self {
                StructurallyExclusive::Member => "member"@,
                StructurallyExclusive::Target => "target"@,
            },
    {
        match self {
            StructurallyExclusive::Member => "member",
            StructurallyExclusive::Target => "target",
        }
    }
}

/// Defines a custom timestamp serialization format.
#[derive(Debug, Clone, Copy, PartialEq, Eq, Structural)]
pub enum TimestampFormatTrait {
    DateTime,
    EpochSeconds,
    HttpDate,
}

impl TimestampFormatTrait {
    /// The value of the variant in the model.
    pub fn value(&self) -> (r: &'static str)
        ensures
            r@ == match self {
                TimestampFormatTrait::DateTime => "date-time"@,
                TimestampFormatTrait::EpochSeconds => "epoch-seconds"@,
                TimestampFormatTrait::HttpDate => "http-date"@,
            },
    {
        match self {
            TimestampFormatTrait::DateTime => "date-time",
            TimestampFormatTrait::EpochSeconds => "epoch-seconds",
            TimestampFormatTrait::HttpDate => "http-date",
        }
    }
}

impl StaticTraitId for TimestampFormatTrait {
    open spec fn spec_trait_id() -> Seq<char> {
        prelude_id("timestampFormat"@)
    }

    fn trait_id() -> (r: ShapeId) {
        prelude_shape_id("timestampFormat")
    }
}

/// The kind of change made to a trait.
#[derive(Debug, Clone, Copy, PartialEq, Eq, Structural)]
pub enum TraitChangeType {
    Update,
    Add,
    Remove,
    Presence,
    Any,
}

impl TraitChangeType {
    /// The value of the variant in the model.
    pub fn value(&self) -> (r: &'static str)
        ensures
            r@ == match self {
                TraitChangeType::Update => "update"@,
                TraitChangeType::Add => "add"@,
                TraitChangeType::Remove => "remove"@,
                TraitChangeType::Presence => "presence"@,
                TraitChangeType::Any => "any"@,
            },
    {
        match self {
            TraitChangeType::Update => "update",
            TraitChangeType::Add => "add",
            TraitChangeType::Remove => "remove",
            TraitChangeType::Presence => "presence",
            TraitChangeType::Any => "any",
        }
    }
}

/// Represents a member without a meaningful value: the empty input or output of
/// an operation, or a union variant with no value.
#[derive(Debug, Clone, Copy, PartialEq, Eq, Structural)]
pub struct Unit;

} // verus!
