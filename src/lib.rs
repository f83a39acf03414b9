//! Timeline echo: mirrors the authoring actions of one social account onto
//! destination accounts. This crate holds the synchronization engine: the
//! persisted store, the diff of a fetched timeline against its stored view,
//! the merge of new operations into the pending queue, and the dispatch
//! decisions that drive the destination writes.

pub mod account;
pub mod operations;
pub mod page;
pub mod protocols;
pub mod store;
pub mod search;
pub mod sources;
pub mod text;
