//! Sleipnir's input bridge: ordering of HID state and button edges, and
//! the catalog of available HID devices.
pub mod advertisement;
pub mod coalesce;
pub mod cursor;
pub mod devices;
pub mod health;
pub mod mapping;
pub mod naming;
pub mod options;
pub mod provider;
pub mod runtime_loop;
pub mod surface;
