//! Persistence layer of a search index: the physical key scheme of the
//! four index tables, the stored form of their values, the consistency
//! discipline that keeps them coherent, and the store handle's decisions.

pub mod codec;
pub mod identifiers;
pub mod keyer;
pub mod kv;
pub mod schema;
