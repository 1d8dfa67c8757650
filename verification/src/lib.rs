//! Acquisition layer for line-oriented serial telemetry: delimiter and column
//! inference on sampled text, line framing of a byte stream, and the state
//! kept for a single live connection.

pub mod autodetect;
pub mod connection;
pub mod decode;
pub mod framing;
pub mod mapping;
pub mod ports;
pub mod ranking;
pub mod reader;
pub mod reading;
pub mod sampler;
pub mod scoring;
pub mod text;
