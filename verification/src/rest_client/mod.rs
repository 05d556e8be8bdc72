//! The REST client of the general key-value API.

pub mod query_builder;
pub mod reader;
pub mod upserter;
pub mod writer;
