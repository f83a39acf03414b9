//! Executing the queue: resolving destination identifiers and deciding each write.
pub mod destination;
pub mod utils;
