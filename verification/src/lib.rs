//! Verified core of a book-catalog service: parsing of the delimited catalog
//! format, derivation of archive and entry names, the model of the indexed
//! document set, search result shaping, and the extraction-resolution state
//! machine. Filesystem, index-engine and archive I/O live outside this crate
//! and hand plain values in and out.

pub mod catalog;
pub mod config;
pub mod delim;
pub mod index_model;
pub mod naming;
pub mod numbers;
pub mod query;
pub mod resolve;
