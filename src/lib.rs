//! A small smart-house model: devices with guarded operations, a registry of
//! devices keyed by position with wildcard queries, rooms and houses built on
//! top of it, and the textual reports generated from them.

pub mod text;
pub mod interface;
pub mod devices;
pub mod keyed;
pub mod device_storage;
pub mod rooms;
pub mod house;
pub mod reports;
