//! A chunked, line-delimited serializer of message dumps.
//!
//! Producers hand a [`serializer::Serializer`] one [`record::DumpRecord`] at a
//! time. Each record is encoded as one line of compact JSON, under a byte
//! budget taken from its [`params::DumpParams`]. Lines are gathered into a
//! buffer that is handed out as a chunk once it grows past a threshold,
//! together with a [`report::Report`] of what was appended, what failed and
//! what overflowed its budget since the previous chunk.

pub mod encoder;
pub mod json;
pub mod laws;
pub mod params;
pub mod payload;
pub mod record;
pub mod report;
pub mod serializer;
pub mod table;
pub mod writer;
