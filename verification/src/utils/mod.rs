//! Shared vocabulary: events, mailboxes, errors and the clock.

pub mod channel;
pub mod error;
pub mod model;
pub mod timer;
