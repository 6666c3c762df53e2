//! PipeCast routing core: a verified model of the daemon's routing and
//! graph-management engine.
//!
//! The crate mirrors a virtual audio mixing topology onto a host audio
//! graph: logical sources and targets are mapped to daemon-owned filter
//! nodes, and a routing matrix decides which filter-to-filter links are
//! realized, subject to per-pair mute state and each target's active mix.

pub mod amap;
pub mod commands;
pub mod ids;
pub mod laws;
pub mod linkman;
pub mod profile;
pub mod registry;
pub mod routing;
pub mod shared;
pub mod strutil;
