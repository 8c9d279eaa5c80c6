//! Host counters sampled by short-lived processes: a bounded series of
//! timestamped snapshots, the rates derived from it, and the envelope under
//! which the series is kept in a single file between invocations.

pub mod time;
pub mod cli;
pub mod decimal;
pub mod metrics;
pub mod storage;
pub mod text;
