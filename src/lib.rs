//! Ingestion core for batches of map images: an incremental length-prefixed
//! frame decoder, a guard that bounds how many frames a stream may yield, the
//! splitter that turns one frame into a named submission, and the planner that
//! decides what is written for each submission.

pub mod buffer;
pub mod frame;
pub mod submission;
pub mod store;
pub mod responder;
pub mod payloads;
