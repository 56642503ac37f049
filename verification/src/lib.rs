//! A typed, subscription-oriented tailing engine for slowly growing record
//! files.
//!
//! Consumers subscribe to a file with a predicate; a reader shared by all
//! subscriptions of one file parses what was appended, filters it for each
//! subscription and hands every subscriber its batch over a bounded channel.
//! This library holds the bookkeeping, the decisions and the routing, each
//! with a contract; blocking waits, sleeps, file reads and operating-system
//! watches are left to the caller, who reports what they gave.

pub mod utils;
pub mod notify;
pub mod reader;
