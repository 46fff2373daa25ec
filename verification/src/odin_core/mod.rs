//! Odin's discovery core: ingest normalization, the Gjallar overview, the
//! Idunn keepalive planner and endpoint discovery.
pub mod idunn;
pub mod gjallar;
pub mod ports;
pub mod pipeline;
pub mod repository;
pub mod discovery;
pub mod daemon;
pub mod daemon_options;
pub mod presence;
pub mod authority;
pub mod correlation;
