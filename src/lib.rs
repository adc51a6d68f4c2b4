//! Wipe-and-verify engine for block devices: block partitioning, a
//! reproducible cipher-based fill pattern, and the write/verify pass driver.

pub mod driver;
pub mod error;
pub mod key;
pub mod options;
pub mod pattern;
pub mod plan;

