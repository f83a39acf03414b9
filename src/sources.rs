//! Reading the source timeline: its live form, the diff against the stored view, and the merge
//! of the resulting operations into the queue.
pub mod merge_operations;
pub mod operation_factory;
pub mod source;
