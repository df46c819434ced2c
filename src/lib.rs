//! A token-bucket rate limiter whose admission protocol is verified.
//!
//! Buckets are named `prefix:key:interval`. A batch of consumptions is
//! evaluated against one instant: each bucket is refilled when its interval
//! has elapsed and that refill is persisted at once; then either every bucket
//! gives its tokens or, when one lacks them, none does and that first bucket's
//! state is reported.
use vstd::prelude::*;

pub mod bucket;
pub mod client;
pub mod decimal;
pub mod handles;
pub mod laws;
pub mod limiter;

pub use bucket::{BatchOutcome, BucketState, MemoryStore, ProtocolEntry};
pub use client::{LUA_SCRIPT, RedisLimiter, RedisLimiterBuilder, redis_url};
pub use decimal::decimal_string;
pub use limiter::{
    KEY_PREFIX, MemoryLimiter, RedisConsumeError, Request, build_entries, decode_reply,
    get_redis_key, outcome_result, validate_request,
};

verus! {

} // verus!
