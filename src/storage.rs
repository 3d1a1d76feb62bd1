//! The two storage capabilities the download engine depends on: where
//! archives are kept, and where task records are kept. Deployments provide
//! the implementations (a local directory and a JSON file, or an object
//! store and a key-value store).
use vstd::prelude::*;
use crate::task::DownloadTask;

verus! {

/// Storage for archive files, by key.
pub trait BlobStorage {
    /// Stores `data` under `key`, handing back the size written.
    fn put(&self, key: &str, data: &[u8]) -> Result<u64, String>;

    /// The bytes stored under `key`, if any.
    fn get(&self, key: &str) -> Result<Option<Vec<u8>>, String>;

    /// The size of what is stored under `key`, if anything.
    fn size(&self, key: &str) -> Result<Option<u64>, String>;

    /// Removes what is stored under `key`; tells whether it existed.
    fn delete(&self, key: &str) -> Result<bool, String>;

    /// Whether something is stored under `key`.
    fn contains(&self, key: &str) -> Result<bool, String>;
}

/// Storage for task records, by id.
pub trait TaskMetadata {
    /// The task with id `id`, if any.
    fn get_task(&self, id: &str) -> Result<Option<DownloadTask>, String>;

    /// Stores or replaces a task.
    fn put_task(&self, task: &DownloadTask) -> Result<(), String>;

    /// Removes the task with id `id`; tells whether it existed.
    fn delete_task(&self, id: &str) -> Result<bool, String>;

    /// The tasks owned by any of `account_hashes`.
    fn list_tasks(&self, account_hashes: &Vec<String>) -> Result<Vec<DownloadTask>, String>;

    /// Every task.
    fn list_all_tasks(&self) -> Result<Vec<DownloadTask>, String>;
}

} // verus!
