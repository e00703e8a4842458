//! Usage accounting for foreground applications: a store of per-application
//! accrued time, the sampling step that feeds it, the queries that read it,
//! and the decoding of externally reported durations.

pub mod ingest;
pub mod laws;
pub mod query;
pub mod usage;
pub mod window;
