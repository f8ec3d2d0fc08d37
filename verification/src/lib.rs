//! Storage engine of a package registry that keeps its data in a remote,
//! versioned object store.
//!
//! The engine never performs I/O itself. It decodes publish bodies, derives
//! storage paths, normalises metadata records and decides, one store reply at
//! a time, which store operation comes next.

pub mod assoc;
pub mod digest;
pub mod error;
pub mod http;
pub mod json;
pub mod ledger;
pub mod memory;
pub mod model;
pub mod normalize;
pub mod path;
pub mod payload;
pub mod race;
pub mod storage;
pub mod store;
