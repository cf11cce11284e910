//! A storage benchmark engine: it turns a benchmark configuration into the
//! exact sequence of file operations a session performs, checks every
//! transfer, and reduces the timed cycles to throughput statistics.
//!
//! The file system, the clock and the console are driven from outside: the
//! engine hands out one action at a time and is told how it went.
//!
//! Beside the engine: data sizes such as `128MB`, and a small markup for
//! styled terminal text (`<info>...</info>` with a style sheet).

pub mod data_size;
pub mod statistics;
pub mod session;
pub mod fill;
pub mod volume;
pub mod markup;
pub mod stylesheet;
pub mod measurement;
