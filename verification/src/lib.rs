//! A content store: the schema and lifecycle of `Content` records.
//!
//! The library owns the `contents` table's schema definition, the closed
//! `ContentType` enumeration with its wire representations, and the store's
//! create / get / list / update / delete / URL-existence operations, each
//! with a verified contract.

pub mod content_type;
pub mod laws;
pub mod record;
pub mod schema;
pub mod store;
pub mod text;
