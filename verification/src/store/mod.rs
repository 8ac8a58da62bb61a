//! Object stores: where an object lies and what an answer means.

pub mod local;
pub mod s3;
