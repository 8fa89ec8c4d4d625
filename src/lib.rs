//! Aggregation of per-handler API metadata into an OpenAPI-style document.
//!
//! Handlers contribute a [`SwaggapiHandler`] descriptor; a [`SwaggapiPageBuilder`]
//! merges them into a path table and a name-deduplicated schema store, and
//! assembles a cached [`Document`] on demand.

pub mod method;
pub mod table;
pub mod handler;
pub mod document;
pub mod page_builder;
pub mod registry;

pub use document::{Document, Info, Operation, PathEntry, PathItem};
pub use handler::{ContextHandler, NamedSchema, Response, ResponseSpec, SwaggapiHandler};
pub use method::HttpMethod;
pub use page_builder::SwaggapiPageBuilder;
pub use registry::{PageOfEverything, PageRegistry, SwaggapiPage};
