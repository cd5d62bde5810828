//! Telemetry dataset simulator core: a typed value model with a byte-exact
//! binary serializer, a JSON config resolver, and the watch/snapshot/publish
//! step logic that drives periodic publication of each dataset entry.
pub mod bytes;
pub mod data;
pub mod json;
pub mod narrow;
pub mod parse;
pub mod serialize;
pub mod watch;
