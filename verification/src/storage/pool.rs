//! Connection pool settings, and how long to wait for a database to come up.
//!
//! Durations are whole nanoseconds.

use vstd::prelude::*;

verus! {

/// One second.
pub const SECOND: u64 = 1_000_000_000;

/// How long to wait before trying again.
pub const RETRY_DELAY: u64 = 500_000_000;

#[derive(Debug, PartialEq, Eq)]
pub struct PoolConfig {
    pub url: String,
    pub max_connections: u32,
    pub min_connections: u32,
    /// How long a request waits for a connection.
    pub acquire_timeout: u64,
    /// How long [`connect`] keeps trying before giving up.
    ///
    /// Deliberately not `acquire_timeout`. That one is short because a request
    /// waiting on an exhausted pool should fail fast; this one is long because
    /// a process starting up should wait for a database that is still coming
    /// up. The same number cannot serve both.
    pub startup_timeout: u64,
}

impl PoolConfig {
    /// The settings for a database at `url`.
    pub fn new(url: &str) -> (config: PoolConfig)
        ensures
            config.url@ == url@,
            config.max_connections == 20,
            config.min_connections == 1,
            config.acquire_timeout == 5 * SECOND,
            config.startup_timeout == 30 * SECOND,
            config.acquire_timeout == 5_000_000_000,
            config.startup_timeout == 30_000_000_000,
            config.startup_timeout > 4 * config.acquire_timeout,
    {
        PoolConfig {
            url: url.to_owned(),
            max_connections: 20,
            min_connections: 1,
            acquire_timeout: 5_000_000_000,
            startup_timeout: 30_000_000_000,
        }
    }

    /// Whether there is still time for another attempt after waiting.
    pub open spec fn has_patience(self, elapsed: u64) -> bool {
        elapsed + RETRY_DELAY < self.startup_timeout
    }
}

/// What to do after an attempt to connect.
#[derive(Debug, Clone, Copy, PartialEq, Eq, Structural)]
pub enum Step {
    /// Use the pool.
    Connected,
    /// Report the failure of this attempt, which is the one that says why.
    GiveUp,
    /// Wait this long, then try again.
    Retry(u64),
}

/// What to do after an attempt to connect, `elapsed` after the first one began.
///
/// A database that is not there yet is an ordinary condition at start-up, not an
/// error. Trying again costs nothing when it is already up, because the first
/// attempt succeeds.
pub fn connect(config: &PoolConfig, connected: bool, elapsed: u64) -> (step: Step)
    ensures
        step == (if connected {
            Step::Connected
        } else if config.has_patience(elapsed) {
            Step::Retry(RETRY_DELAY)
        } else {
            Step::GiveUp
        }),
        step == Step::Connected <==> connected,
        !connected && elapsed + 500_000_000 < config.startup_timeout ==> step == Step::Retry(
            500_000_000,
        ),
        !connected && elapsed + 500_000_000 >= config.startup_timeout ==> step == Step::GiveUp,
{
    if connected {
        Step::Connected
    } else if (elapsed as u128) + (RETRY_DELAY as u128) < (config.startup_timeout as u128) {
        Step::Retry(RETRY_DELAY)
    } else {
        Step::GiveUp
    }
}

/// Trying again has to end. However the failures are spread, as long as each
/// wait lasts at least as long as was asked for, the attempts that are followed
/// by another fit into the start-up budget.
pub proof fn retrying_ends(config: PoolConfig, moments: Seq<u64>)
    requires
        forall|i: int| 0 <= i < moments.len() ==> config.has_patience(#[trigger] moments[i]),
        forall|i: int, j: int|
            0 <= i && j == i + 1 && j < moments.len() ==> #[trigger] moments[j] >= #[trigger] moments[i]
                + RETRY_DELAY,
    ensures
        moments.len() > 0 ==> moments.len() * RETRY_DELAY < config.startup_timeout,
{
    if moments.len() > 0 {
        waits_add_up(moments, moments.len() - 1);
        let last = moments.len() - 1;
        assert(config.has_patience(moments[last]));
        assert(moments.len() * RETRY_DELAY == last * RETRY_DELAY + RETRY_DELAY);
    }
}

proof fn waits_add_up(moments: Seq<u64>, n: int)
    requires
        0 <= n < moments.len(),
        forall|i: int, j: int|
            0 <= i && j == i + 1 && j < moments.len() ==> #[trigger] moments[j] >= #[trigger] moments[i]
                + RETRY_DELAY,
    ensures
        moments[n] >= n * RETRY_DELAY,
    decreases n,
{
    if n > 0 {
        waits_add_up(moments, n - 1);
        assert(moments[n] >= moments[n - 1] + RETRY_DELAY);
        assert(n * RETRY_DELAY == (n - 1) * RETRY_DELAY + RETRY_DELAY);
    }
}

} // verus!
