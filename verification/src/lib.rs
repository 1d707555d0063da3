//! Core logic of a terminal dashboard that polls Pi-hole metrics providers:
//! refresh coordination with a single-flight guarantee per server, time-series
//! downsampling for the query chart, and ranking of label/count tables.
//!
//! Everything that talks to the network or the terminal lives outside this
//! crate; the functions here are pure state transitions and computations over
//! plain values.

pub mod chart;
pub mod ranking;
pub mod series;
pub mod server;
pub mod state;
pub mod text;
