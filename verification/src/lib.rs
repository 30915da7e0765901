//! Primary-key-aware page pruning for a time-series storage engine, together
//! with the region descriptors and write-ahead-log settings that surround it.

pub mod byte_order;
pub mod consts;
pub mod datatypes;
pub mod descriptors;
pub mod expr;
pub mod key_encoding;
pub mod log_store;
pub mod metadata;
pub mod page_prune;
pub mod prefix_range;
pub mod pruning_laws;
pub mod row_converter;
pub mod schema;
pub mod text;
pub mod wal;
