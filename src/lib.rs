//! A system-information report: the host's facts, gathered by probes, grouped
//! into configurable sections and shown beside the art of its distribution.
//!
//! The modules hold what is decided and computed; running the probes is left
//! to the caller, which hands their raw output to the functions here.
pub mod ascii;
pub mod config;
pub mod packages;
pub mod probes;
pub mod registry;
pub mod render;
pub mod text;
