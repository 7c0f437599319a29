//! The journal: the things the user keeps, the recent things not yet kept, and the changes that
//! can be undone.

pub mod thing;

pub use thing::{Thing, ThingData, ThingKind};
pub mod data_store;

pub use data_store::{DataStore, MemoryDataStore, NullDataStore};
pub mod repository;

pub use repository::{Change, Error, FallbackStore, KeyValue, Record, RecordStatus, Repository};
pub mod backup;

pub use backup::{BackupData, ImportStats, KeyValueBackup};
pub mod command;
pub mod render;
pub mod run;

pub use command::StorageCommand;
