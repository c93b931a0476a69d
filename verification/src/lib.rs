//! A verified core for a single-resource book catalogue: the data model,
//! input validation and normalization, an insertion-ordered store with the
//! create/get/update/delete operations, and the error-to-status mapping.
pub mod book;
pub mod dates;
pub mod laws;
pub mod service;
pub mod store;
pub mod text;
