//! The poller's receive parameters. The receive call itself is blocking
//! queue I/O and lives in the runtime shell; this module fixes the
//! parameters it polls with and the constraint that makes them sound: the
//! visibility timeout must outlast the delivery attempt, or the queue
//! redelivers a message that is still being processed.

use vstd::prelude::*;

verus! {

/// The fixed parameters of one receive call and of the delivery attempt it
/// feeds.
pub struct PollConfig {
    /// Messages asked for per receive call, at most 10.
    pub batch_size: i32,
    /// The long-poll wait, in seconds.
    pub wait_seconds: i32,
    /// How long a received message stays invisible without an ack.
    pub visibility_seconds: i32,
    /// The pause after a failed receive call before polling again.
    pub backoff_seconds: u64,
    /// The bound on one HTTP delivery attempt.
    pub http_timeout_seconds: u64,
}

impl PollConfig {
    /// Sound receive parameters: a batch the queue accepts, a bounded
    /// long-poll, and a visibility window longer than the HTTP timeout, so
    /// a message cannot reappear while its delivery attempt still runs.
    pub open spec fn wf(self) -> bool {
        &&& 1 <= self.batch_size <= 10
        &&& 0 <= self.wait_seconds <= 20
        &&& self.visibility_seconds > self.http_timeout_seconds
        &&& self.backoff_seconds >= 1
    }

    /// The relay's parameters: batches of 10, 20 s long-poll, 60 s
    /// visibility against a 20 s HTTP timeout, 2 s backoff after a failed
    /// poll.
    pub fn relay_default() -> (c: PollConfig)
        ensures
            c.wf(),
            c.batch_size == 10,
            c.wait_seconds == 20,
            c.visibility_seconds == 60,
            c.backoff_seconds == 2,
            c.http_timeout_seconds == 20,
    {
        PollConfig {
            batch_size: 10,
            wait_seconds: 20,
            visibility_seconds: 60,
            backoff_seconds: 2,
            http_timeout_seconds: 20,
        }
    }
}

} // verus!
