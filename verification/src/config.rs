//! Limits and durations of the price board.

use vstd::prelude::*;

verus! {

/// Price entries kept in the rolling history.
pub const MAX_HISTORY: usize = 1441;

/// Exchange-rate entries kept in the rolling history.
pub const MAX_USD_HISTORY: usize = 11;

/// Milliseconds between two polls of the exchange rate.
pub const USD_POLL_INTERVAL_MS: u64 = 300;

/// Subscribers admitted at the same time.
pub const MAX_CONNECTIONS: usize = 500;

/// Messages the broadcast channel buffers for a subscriber that falls behind.
pub const CHANNEL_CAPACITY: usize = 256;

/// Milliseconds for which a built snapshot may be served again.
pub const STATE_CACHE_TTL_MS: u64 = 20;

/// Smallest accepted monthly limit.
pub const MIN_LIMIT: i64 = 0;

/// Largest accepted monthly limit.
pub const MAX_LIMIT: i64 = 88888;

/// Monthly limit of a fresh board.
pub const DEFAULT_LIMIT: i64 = 8;

/// Seconds that must pass between two accepted changes of the limit.
pub const RATE_LIMIT_SECONDS: u64 = 5;

/// Weighted failed attempts, within the window, that bring a ban.
pub const MAX_FAILED_ATTEMPTS: usize = 5;

/// Seconds over which failed attempts are counted.
pub const FAILED_ATTEMPT_WINDOW: u64 = 60;

/// Seconds a ban lasts when failed attempts bring it.
pub const BLOCK_DURATION_SECS: u64 = 300;

/// Seconds a ban lasts when the rate limiter asks for it.
pub const STRICT_BLOCK_SECS: u64 = 600;

/// Seconds of the rate limiter's sliding window.
pub const RATE_LIMIT_WINDOW: u64 = 60;

/// Requests a client may make within the window.
pub const RATE_LIMIT_MAX_REQUESTS: usize = 60;

/// Recorded requests within the window from which a client is banned.
pub const RATE_LIMIT_STRICT_MAX: usize = 120;

/// Seconds after which a client refused for its many requests may return.
pub const RETRY_AFTER_SECS: u64 = 60;

/// Seconds between two sweeps of the rate limiter's table.
pub const CLEANUP_INTERVAL_SECS: u64 = 30;

/// Seconds between two heartbeat messages.
pub const HEARTBEAT_INTERVAL_SECS: u64 = 15;

/// Seconds of silence after which a subscriber's connection is closed.
pub const WS_TIMEOUT_SECS: u64 = 45;

/// Most seconds to wait before connecting to the feed again.
pub const MAX_RECONNECT_WAIT_SECS: u64 = 15;

/// Weight of a request for a path that looks like a probe.
pub const WEIGHT_SUSPICIOUS_PATH: usize = 3;

/// Weight of a malformed request.
pub const WEIGHT_MALFORMED: usize = 2;

/// Weight of a failed authorization.
pub const WEIGHT_UNAUTHORIZED: usize = 1;

/// Update keys remembered before the memory of seen updates starts over.
pub const MAX_SHOWN_UPDATES: usize = 5000;

} // verus!
