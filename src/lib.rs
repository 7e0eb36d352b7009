//! Persistence mapping for the user and task collections: typed records,
//! the tolerant document codec, and the documents that address stored
//! records by identity.
pub mod document;
pub mod task;
pub mod user;
