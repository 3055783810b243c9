//! A library for collecting, storing and querying short knowledge snippets
//! ("tips") published as base64-encoded markdown files.
//!
//! The pipeline: a manifest of remote files is fetched, each body is
//! base64-decoded ([`codec`]), split into tips at `###` heading lines
//! ([`parser`]), and the resulting records are persisted by one of two
//! storage engines ([`storage`]): a flat JSON file or a SQLite database.

pub mod codec;
pub mod command;
pub mod github;
pub mod model;
pub mod parser;
pub mod render;
pub mod storage;
pub mod text;
