//! Bridges a solar inverter's XML status document to a message broker and a
//! time-series database: decoding, translation and the polling state machine.

pub mod config;
pub mod decimal;
pub mod decode;
pub mod poller;
pub mod reading;
pub mod text;
pub mod tokens;
pub mod translate;
