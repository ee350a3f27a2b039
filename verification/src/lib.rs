//! Write set tracking for an active transaction of a document database.
//!
//! [`writes::Writes`] coalesces the writes of a transaction into one change
//! for each document, counts how much was written, and records the reads on
//! which the writes depend, so that the transaction conflicts with parallel
//! changes to the tables and indexes that it relies on.

pub mod decimal;
pub mod document;
pub mod effects;
pub mod error;
pub mod ids;
pub mod laws;
pub mod model;
pub mod reads;
pub mod writes;
