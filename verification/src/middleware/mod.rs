//! What stands between the client and the backend.

pub mod entries;
pub mod semantic_cache;
