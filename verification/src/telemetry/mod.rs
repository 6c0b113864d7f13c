//! The reporting of usage: reports are gathered, compressed and submitted, with retries.

pub mod batch;
pub mod error;
pub mod header;
pub mod keyed;
pub mod laws;
pub mod outgoing;
pub mod report;
pub mod request;
pub mod sender;
pub mod submission;
pub mod timestamp;
