//! Streaming column profiling: value classification, per-column kind
//! inference with one-way promotion, running counters, and data-quality
//! diagnostics.

pub mod classify;
pub mod profile;
pub mod diagnose;
pub mod table;
pub mod laws;
