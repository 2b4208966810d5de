//! State-backend adapter between a block-execution engine and a versioned,
//! hash-addressed key-value store, together with the executor capability
//! interface and its scripted double.

pub mod bundle;
pub mod bytes;
pub mod error;
pub mod execute;
pub mod hashing;
pub mod laws;
pub mod lifecycle;
pub mod primitives;
pub mod reader;
pub mod record;
pub mod store;
pub mod test_utils;
pub mod writer;
