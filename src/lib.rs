//! Per-token price windows for a streaming relative-strength indicator, the
//! decision step of the ingestion loop, and the decision step of a live
//! subscriber session.
//!
//! Prices travel through the library as the IEEE-754 bit patterns of their
//! 64-bit floating-point values (`f64::to_bits`), so the library stores and
//! returns them exactly as received.
pub mod history;
pub mod ingest;
pub mod session;
