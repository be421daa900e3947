//! Host-side telemetry agent: sensor snapshots and history, the registry of display
//! clients, the decisions of the HTTP serving plane, transport framing, layout
//! element logic and the per-client sync worker.
pub mod aida64;
pub mod api;
pub mod assets;
pub mod config;
pub mod mac;
pub mod model;
pub mod net;
pub mod providers;
pub mod render;
pub mod sensor;
pub mod strings;
pub mod transport;
pub mod worker;
