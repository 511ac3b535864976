//! Write-absorption and read-acceleration core of a person-record service.
//!
//! The service answers four requests: create a record, read one by
//! identifier, search by substring, and count. Creations are acknowledged as
//! soon as the record is cached and queued; a flusher drains the queue into
//! the store in batches. This crate holds the decisions of that service and
//! proves what they guarantee; reaching the network and the store is left to
//! the program around it, which hands in what it read and carries out what it
//! is told.
//!
//! - [`pessoa`]: the record, its validation and its row in the store.
//! - [`json`]: the canonical JSON form of a record.
//! - [`cache`]: the concurrent maps behind the cache.
//! - [`service`]: the cache's three indexes, the ingest queue and the
//!   operations on them.
//! - [`handlers`]: the HTTP operations and their responses.
//! - [`flusher`]: the batch flusher.
//! - [`store`]: the questions to the store, and the behaviour while the store
//!   cannot be reached.
//! - [`env`]: the configuration.
//! - [`laws`]: what holds over sequences of operations.
//! - [`text`]: text helpers.

pub mod cache;
pub mod env;
pub mod flusher;
pub mod handlers;
pub mod json;
pub mod laws;
pub mod pessoa;
pub mod service;
pub mod store;
pub mod text;
