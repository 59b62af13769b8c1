//! Verified decisions of a durable store for agent sessions.

pub mod agents;
pub mod blobs;
pub mod calendar;
pub mod config;
pub mod conversations;
pub mod credentials;
pub mod error;
pub mod events;
pub mod gateway;
pub mod gc;
pub mod hours;
pub mod ids;
pub mod inference;
pub mod interrupt;
pub mod keys;
pub mod leases;
pub mod listing;
pub mod log;
pub mod metering;
pub mod metering_prune;
pub mod metering_reads;
pub mod metrics;
pub mod metrics_laws;
pub mod metrics_rollup;
pub mod metrics_store;
pub mod metrics_turns;
pub mod nodes;
pub mod paging;
pub mod payload;
pub mod placed_tools;
pub mod placements;
pub mod plans;
pub mod quota;
pub mod refresh;
pub mod replay;
pub mod routes;
pub mod rows;
pub mod scheduler;
pub mod sealing;
pub mod session;
pub mod sessions;
pub mod sort;
pub mod text;
pub mod textmap;
pub mod time;
pub mod timers;
pub mod tool_routing;
pub mod tools;
pub mod turns;
pub mod usage;
pub mod volumes;
pub mod waits;

use error::{StoreError, StoreResult};
use vstd::prelude::*;

verus! {

/// Largest encoded record that a row holds itself.
pub const INLINE_LIMIT: usize = 81_920;

/// Bytes that one batch of rows may take, below the transaction limit of the database.
pub const MAX_BATCH_BYTES: usize = 8_388_608;

/// Largest page that one scan may return.
pub const MAX_SCAN_LIMIT: usize = 64;

/// Rejects a page limit of zero or above the largest page.
pub fn check_limit(limit: usize) -> (checked: StoreResult<()>)
    ensures
        checked is Ok <==> 1 <= limit <= MAX_SCAN_LIMIT,
        checked is Err ==> checked == Err::<(), StoreError>(StoreError::InvalidLimit),
{
    if 1 <= limit && limit <= MAX_SCAN_LIMIT {
        Ok(())
    } else {
        Err(StoreError::InvalidLimit)
    }
}

} // verus!
