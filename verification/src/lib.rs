//! A verified core for a manager of named profiles of a tool's JSON
//! settings file: an on-disk store of profiles of which at most one is
//! active, a shallow-merge projection of the active profile's settings
//! onto the tool's live settings document, a one-time migration of a
//! pre-existing live settings file into a first profile, and idempotent
//! injection and removal of integration hooks.

pub mod codec;
pub mod errors;
pub mod hooks;
pub mod ids;
pub mod json;
pub mod live;
pub mod mcp;
pub mod store;
pub mod sysinfo;
pub mod usage;
