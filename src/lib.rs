//! Telemetry sink pipeline: a streaming delimited-text encoder, the decision
//! core of a rotating file transport with the names of its files, and the
//! start/stop lifecycle that ties them to a producer queue; with the small
//! value types the agent's records are made of.
mod buf;
pub mod csv;
pub mod encoder;
pub mod error;
pub mod record;
pub mod transport;
pub mod paths;
pub mod lifecycle;
pub mod cow;
pub mod tags;
pub mod text;
