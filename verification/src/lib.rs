//! Probe-result parsing and metrics derivation for a network-probe exporter.
//!
//! The library turns the captured text of an external reachability probe into
//! a structured [`parse::ProbeResult`] and maps that result, together with the
//! probe process's exit status, onto a set of named numeric observations that
//! a metrics renderer can expose. Everything here is plain byte and integer
//! logic; process spawning, HTTP routing and the exposition encoding live with
//! the surrounding application.

pub mod metrics;
pub mod parse;
pub mod request;
pub mod scan;
pub mod settings;
