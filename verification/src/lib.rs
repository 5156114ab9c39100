//! Cuts a stream of bytes into numbered slices of a fixed size, and decides,
//! step by step, what a command-line run over several source files does next.
//!
//! The library performs no input or output. The caller opens, reads, writes
//! and prints; the library is told how each request ended and answers with
//! the next one.

pub mod chunks;
pub mod cli;
pub mod decimal;
pub mod names;
pub mod report;
pub mod run;
pub mod size;
pub mod slicer;
pub mod trace;
