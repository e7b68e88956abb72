//! A fixed-capacity multiset over a small domain of indexed elements.
//!
//! Each value tracks one unsigned multiplicity per domain element. The
//! library offers set-theoretic operations (intersection, union, subset
//! tests), aggregate statistics (total, extremes, zero counts), weighted
//! random restriction, and chunked kernels that process the storage a
//! fixed number of lanes at a time, selected by a capability tier.

mod chunks;
pub mod kernels;
pub mod laws;
pub mod model;
pub mod multiset;
pub mod random;
pub mod tier;
