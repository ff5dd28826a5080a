//! Decoding and best-effort recovery of Windows forensic artifacts from raw bytes:
//! prefetch volume-information records and background-transfer (BITS) job databases.

pub mod cursor;
pub mod volume;
pub mod records;
pub mod join;
pub mod legacy;
pub mod carve;
pub mod tables;
pub mod bits;
pub mod shimdb;
