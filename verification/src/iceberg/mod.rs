//! Iceberg state: deletion vectors, versions, snapshots and catalogs.

pub mod catalog;
pub mod deletion_vector;
pub mod dv_merge;
pub mod dv_upload;
pub mod head_discovery;
pub mod manifest;
pub mod object_store_catalog;
pub mod object_store_commit;
pub mod snapshot;
pub mod version;
