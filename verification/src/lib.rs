//! Management backend for a fleet of automated mobile-device agents.
//!
//! The library holds the verified core: record stores for the entities the
//! backend manages (train jobs, publish jobs, materials, devices, accounts,
//! dialog watchers), the operator settings store, request-parameter
//! validation, and the aggregation policy for commands fanned out to remote
//! device agents. The surrounding process (HTTP routing, the database file,
//! uploads) lives outside the library and hands it plain values.

pub mod accounts;
pub mod api;
pub mod clock;
pub mod devices;
pub mod dialog_watchers;
pub mod fanout;
pub mod groups;
pub mod materials;
pub mod order;
pub mod publish_jobs;
pub mod settings;
pub mod status;
pub mod train_jobs;

use vstd::prelude::*;

verus! {

/// An optional payload field, or the column default it falls back to.
pub open spec fn or_i64(o: Option<i64>, d: i64) -> i64 {
    match o {
        Some(v) => v,
        None => d,
    }
}

/// An optional timestamp field, or the current time it falls back to.
pub open spec fn or_u64(o: Option<u64>, d: u64) -> u64 {
    match o {
        Some(v) => v,
        None => d,
    }
}

} // verus!
