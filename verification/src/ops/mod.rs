//! Btrfs operations: the commands to run and what their output says.

pub mod commands;
pub mod io_priority;
pub mod listing_laws;
pub mod size_laws;
pub mod snapshot;
pub mod subvolume;
pub mod usage;
pub mod xattr;
