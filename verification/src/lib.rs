//! Verified core of a storage-upload notification handler: per-record
//! filtering and normalization, the thumbnail recursion guard and format
//! allow-list, the key-value record encoding with its round-trip proof,
//! and the daily-report rendering and cycle planning.

pub mod events;
pub mod numeric;
pub mod records;
pub mod report;
pub mod store;
pub mod text;
pub mod thumbs;
