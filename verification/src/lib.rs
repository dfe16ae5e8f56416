//! Desktop wallpaper hosting engine: per-monitor instance lifecycle, selector
//! resolution, the pause state machine, monitor topology ordering, snapshot
//! stitching and hot-reload debouncing, with contracts proved by Verus.
//!
//! The operating-system edges (window embedding, IPC, file watching, the
//! actual pixel capture) live outside this crate; the logic that decides what
//! those edges should do is here, stated over plain values.

pub mod assets;
pub mod config;
pub mod geometry;
pub mod hostwin;
pub mod logging;
pub mod paths;
pub mod pause;
pub mod runtime;
pub mod snapshot;
pub mod text;
pub mod topology;
pub mod watcher;
