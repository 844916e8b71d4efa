//! Limits and delays of the execution system.

use vstd::prelude::*;

verus! {

/// How long the operator has to answer a UI request, in seconds.
pub const UI_RESPONSE_TIMEOUT_SECS: u64 = 300;

/// How long a worker has to shut down, in seconds.
pub const WORKER_SHUTDOWN_TIMEOUT_SECS: u64 = 5;

/// When a timeout warning is shown, in percent of the timeout.
pub const TIMEOUT_WARNING_THRESHOLD: u64 = 75;

/// The most jobs run at the same time.
pub const MAX_CONCURRENT_JOBS: usize = 100;

/// The pause between scheduling attempts when no work is ready, in
/// milliseconds.
pub const IDLE_POLL_DELAY_MS: u64 = 10;

} // verus!
