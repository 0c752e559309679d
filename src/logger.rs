//! The variant of the instrumentation that reports lifecycle messages, and writes each resume
//! as one complete span.

pub mod log_out;
