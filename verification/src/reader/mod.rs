//! Dispatching, reading and the registry of readers.

pub mod msg_dispatcher;
pub mod subscribe_reader;
pub mod csv_reader;
pub mod dbf_reader;
pub mod manager;
