//! Depository manager core: path mapping, change detection, materialization
//! planning, the content-hash cache and the in-memory configuration model.
pub mod error;
pub mod path_map;
pub mod cache;
pub mod entry;
pub mod digest;
pub mod compress;
pub mod storage;
pub mod laws;
pub mod transaction;
pub mod env;
pub mod tempfile;
pub mod ops;
