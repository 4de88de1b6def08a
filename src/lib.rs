//! A bounded-concurrency feed crawler core: a claim-once URL set, a keyed
//! capacity counter, feed and article selection, a result index with
//! completion tracking, and the bookkeeping of a fixed-size worker pool.
pub mod cvar;
pub mod feed;
pub mod index;
pub mod limiter;
pub mod pool;
pub mod seen;
