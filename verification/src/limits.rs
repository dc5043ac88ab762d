//! The limits of a run: how much the clients may ask of the two services
//! and how much the queue of the dispatcher holds.
use vstd::prelude::*;

verus! {

/// Capacity of the queue between the ingestion and the dispatcher.
pub const CHANNEL_CAPACITY: usize = 1000;

/// The number of jobs that the dispatcher keeps in flight.
pub const MAX_CONCURRENT_EMBEDDINGS: usize = 100;

/// The pause between two looks at the counters while waiting for the
/// dispatcher, in milliseconds.
pub const WAIT_POLL_MILLIS: u64 = 100;

/// The rate limit of the store client, in requests in a second.
pub const STORE_REQUESTS_PER_SECOND: u32 = 100;

/// The rate limit of the embedding client, in requests in a minute.
pub const EMBEDDING_REQUESTS_PER_MINUTE: u32 = 4000;

/// The time after which a request to the store is given up, in seconds.
pub const STORE_TIMEOUT_SECONDS: u64 = 90;

/// The time after which a request to the embedding service is given up, in
/// seconds.
pub const EMBEDDING_TIMEOUT_SECONDS: u64 = 30;

/// Idle connections that the store client keeps for one host.
pub const STORE_IDLE_CONNECTIONS: usize = 500;

/// Idle connections that the embedding client keeps for one host.
pub const EMBEDDING_IDLE_CONNECTIONS: usize = 3000;

} // verus!
