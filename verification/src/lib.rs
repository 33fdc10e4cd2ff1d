//! Cache-aside core of a market-data dashboard: a byte-budgeted,
//! time-bounded LRU cache for fetched price series, the rules that turn a
//! chart response into a series, and the request pipeline around them.
//!
//! Series values are IEEE-754 doubles carried as their bit patterns (`u64`):
//! the cache stores and counts them, it never computes with them.

pub mod cache;
pub mod chart;
pub mod clock;
pub mod error;
pub mod export;
pub mod model;
pub mod service;
pub mod settings;
pub mod store;
