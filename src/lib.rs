//! An OpenAPI 3.0 document assembly engine: schema components are
//! contributed into a registry that deduplicates them by name, operations
//! collect their responses per status code, and a builder folds everything
//! into one document, written out as JSON.
pub mod schema;
pub mod registry;
pub mod responses;
pub mod component;
pub mod operation;
pub mod document;
pub mod json;
