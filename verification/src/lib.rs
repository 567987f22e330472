//! The core of a directory browser that is confined to one base directory:
//! sandboxed path resolution, directory listings with a per-file "heard"
//! flag, a filter for file-system change events and the fan-out of admitted
//! events to any number of subscribers.
//!
//! Nothing here touches the file system, the network or a clock. Callers read
//! what the functions need, hand it over as plain values, and act on what
//! comes back.

pub mod heard;
pub mod paths;
pub mod text;
pub mod templates;
pub mod listing;
pub mod events;
pub mod hub;
pub mod delivery;
pub mod toggle;
pub mod watcher;
pub mod stream;
pub mod config;
