//! Telemetry core for a solar-charge-controller monitor.
//!
//! The heart of the crate is an incremental decoder for the VE.Direct serial
//! protocol: it turns an unbounded, arbitrarily fragmented byte stream into
//! validated telemetry snapshots, maintaining a rolling checksum and
//! resynchronizing after corruption.  Around it sit the field-dispatch rules,
//! the frame data model, a single-writer/multi-reader slot for the latest
//! frame, and the pure decision logic of the device runner.

pub mod broadcast;
pub mod config;
pub mod decoder;
pub mod explore_flow;
pub mod fields;
pub mod flow;
pub mod frame;
pub mod laws;
pub mod network;
pub mod runner;
pub mod slot;
pub mod text;
