//! Versioned storage-schema migration engine for a persistent key-value
//! ledger.
//!
//! The engine moves every entry of a source namespace to a target namespace,
//! copies a small set of scalar counters to new cell names while resetting the
//! old cells to a zero baseline, and finally advances a schema-version marker,
//! reporting the number of storage reads and writes it performed.  A
//! diagnostic checker can snapshot the observables before the migration and
//! compare them against the migrated state afterwards.

pub mod assoc;
pub mod checks;
pub mod migration;
pub mod names;
pub mod store;
pub mod version;
