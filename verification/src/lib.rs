//! A small in-memory home-automation registry: a house owns rooms, rooms own
//! devices, and a report generator walks the hierarchy, asking a
//! caller-supplied provider for each device's live status text.

pub mod device;
pub mod home;
pub mod ids;
pub mod room;
pub mod text;
