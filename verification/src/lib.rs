//! Core library of the Smithy data model: shape ids, schemas, documents,
//! validation and formatting of shapes.
pub mod documents;
pub mod numbers;
pub mod prelude;
pub mod refs;
pub mod schema;
pub mod shapes;
pub mod text;
pub mod traits;
pub mod validation;
pub mod values;
pub mod fmt;
pub mod api;
pub mod assertions;
pub mod builders;
pub mod correction;
pub mod adapters;
pub mod conversion;
