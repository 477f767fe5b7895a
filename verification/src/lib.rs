//! A verified core for a small append-log record store.
//!
//! Records are JSON objects kept one per line. The host reads and writes the
//! store file; every decision about its contents is made here.

pub mod error;
pub mod framing;
pub mod json;
pub mod laws;
pub mod log;
pub mod path;
pub mod record;
pub mod storage;
