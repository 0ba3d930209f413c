//! Performance and system statistics collection for Linux.
//!
//! The crate has two halves: parsers for the text interfaces under `/proc`
//! (`system_stats`), and a manager for kernel performance-counter groups
//! opened through the `perf_event_open` syscall (`raw_perf_events`).

pub mod text;

pub mod system_stats;

pub mod raw_perf_events;
