//! Storage-facing types and the feature-flag storage interface.
//!
//! The interface is for hosts to implement against their own database
//! layer; this crate states its shape and carries its data types.

use vstd::prelude::*;

verus! {

/// One experience-continuity override: a flag pinned to a hash key.
#[derive(Debug, Clone, PartialEq)]
pub struct HashKeyOverride {
    pub feature_flag_key: String,
    pub hash_key: String,
}

/// Context for hash key override decisions: the resolved person, the
/// existing overrides, and which flags already have one.
#[derive(Debug, Clone, PartialEq)]
pub struct HashKeyOverrideContext {
    pub person_id: i64,
    pub distinct_id: String,
    pub overrides: Vec<HashKeyOverride>,
    pub existing_feature_flag_keys: Vec<String>,
}

/// Which database pool a read goes to: the primary, guaranteeing
/// read-after-write consistency, or a replica that may lag.
#[derive(Debug, Clone, Copy, PartialEq, Eq, Structural)]
pub enum ConsistencyLevel {
    Strong,
    Eventual,
}

/// Why a storage operation failed.
#[derive(Debug, Clone, Copy, PartialEq, Eq, Structural)]
pub enum StorageError {
    /// The store could not be reached.
    Unavailable,
    /// The query referenced something that does not exist.
    NotFound,
    /// The store rejected or mangled the operation.
    Internal,
}

pub type StorageResult<T> = Result<T, StorageError>;

/// Feature-flag hash-key-override operations, implemented by the host's
/// storage backend.
pub trait FeatureFlagStorage {
    /// The context needed for hash key override decisions: distinct IDs
    /// resolved to person IDs with their existing override information.
    /// With `check_person_exists`, only persons present in the person table
    /// are returned.
    fn get_hash_key_override_context(
        &self,
        team_id: i64,
        distinct_ids: &Vec<String>,
        check_person_exists: bool,
        consistency: ConsistencyLevel,
    ) -> StorageResult<Vec<HashKeyOverrideContext>>;

    /// Upsert overrides for every (distinct id, flag key) pair with the
    /// given hash key; returns how many records were inserted.
    fn upsert_hash_key_overrides(
        &self,
        team_id: i64,
        distinct_ids: &Vec<String>,
        feature_flag_keys: &Vec<String>,
        hash_key: &str,
    ) -> StorageResult<i64>;

    /// Delete all overrides of the given teams; returns how many records
    /// were deleted.
    fn delete_hash_key_overrides_by_teams(&self, team_ids: &Vec<i64>) -> StorageResult<i64>;
}

} // verus!
