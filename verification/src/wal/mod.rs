//! Write-ahead log.

pub mod format;
