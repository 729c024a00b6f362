//! Core of a request-logging middleware: it wraps an inner request handler,
//! times the call, and emits one structured log record per request that
//! completes successfully, with one bound field per request header.
//!
//! The surrounding HTTP framework owns the request loop: it snapshots the
//! headers, awaits the inner handler, measures the elapsed time, and hands
//! those plain values to this library, which decides what (if anything) is
//! logged and pins the record's contents down exactly.

pub mod middleware;
pub mod record;
pub mod text;
