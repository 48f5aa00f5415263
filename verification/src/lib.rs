//! Typed mapping between Neo4j bolt values and Rust values, with query
//! building and the decisions behind the mapping derives and Cypher macros.

pub mod bolt;
pub mod error;
pub mod macros;
pub mod mapping;
pub mod props;
pub mod query;
pub mod record;
pub mod stream;
pub mod text;
pub mod traits;
pub mod value;
