//! Storage configuration and faults.
//!
//! The durable vector and graph backends themselves are external
//! collaborators reached over the network; the core only carries their
//! configuration and reports their faults. Durability is best-effort: the
//! pipeline continues when a store write fails.

use vstd::prelude::*;

verus! {

use vstd::string::StringExecFns;

/// Faults reported by the storage backends.
#[derive(Debug)]
pub enum StorageError {
    BarqDbError(String),
    BarqGraphError(String),
    ConnectionError(String),
    SerializationError(String),
    NotFound(String),
}

/// Which backend a record lives in.
#[derive(Clone, Copy, PartialEq, Eq, Structural, Debug)]
pub enum StorageBackend {
    BarqDB,
    BarqGraphDB,
    Hybrid,
}

/// Where the backends listen and how records are kept.
#[derive(Clone, Debug)]
pub struct StorageConfig {
    pub barq_db_url: String,
    pub barq_graphdb_url: String,
    pub messages_collection: String,
    pub dedup_collection: String,
    pub embedding_dim: u32,
    pub dedup_ttl_secs: u64,
}

impl Default for StorageConfig {
    fn default() -> (r: Self)
        ensures
            r.barq_db_url@ == "http://localhost:8080"@,
            r.barq_graphdb_url@ == "http://localhost:8081"@,
            r.messages_collection@ == "aimesh_messages"@,
            r.dedup_collection@ == "aimesh_dedup"@,
            r.embedding_dim == 384,
            r.dedup_ttl_secs == 3600,
    {
        StorageConfig {
            barq_db_url: String::from_str("http://localhost:8080"),
            barq_graphdb_url: String::from_str("http://localhost:8081"),
            messages_collection: String::from_str("aimesh_messages"),
            dedup_collection: String::from_str("aimesh_dedup"),
            embedding_dim: 384,
            dedup_ttl_secs: 3600,
        }
    }
}

} // verus!
