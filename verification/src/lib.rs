//! Exports a collection of documents as one stream of bytes: the raw
//! payloads one after another, or a ZIP container with one stored entry per
//! document, whose payloads may be gzip-compressed first.
//!
//! - [`data`]: documents and the catalog a fresh store is seeded with.
//! - [`payload`]: the payload of a document and the entry made of it.
//! - [`compress`]: the compression stage.
//! - [`layout`]: the bytes of the container's records.
//! - [`entry`]: entries, directory records and the bytes of a whole archive.
//! - [`archive`]: the container encoder.
//! - [`coordinator`]: who may write, and when the container is finalized.
//! - [`route`]: the three exports.
//! - [`error`]: the failures of an export and the reaction to each.
//! - [`reading`]: how a reader finds the entries of an archive.
//! - [`laws`]: what holds of every finished archive.

pub mod archive;
pub mod compress;
pub mod coordinator;
pub mod data;
pub mod entry;
pub mod error;
pub mod laws;
pub mod layout;
pub mod payload;
pub mod reading;
pub mod route;
