//! Resolution of semantic-convention attribute declarations into a flat,
//! deduplicated set of fully populated attributes.

pub mod attribute;
pub mod catalog;
pub mod check;
pub mod error;
pub mod lineage;
pub mod name_map;
pub mod names;
pub mod registry;
pub mod resolved;
pub mod schema;
pub mod search;
pub mod semconv;
pub mod text;
pub mod version;
