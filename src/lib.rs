//! A small document tracker: documents with an id, a title, a status and an
//! optional creation time, kept in a store that enforces unique ids, plus the
//! rules that turn store outcomes into HTTP responses.

pub mod api;
mod clock;
pub mod document;
pub mod laws;
pub mod status;
pub mod store;
