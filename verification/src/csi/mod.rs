//! The services of the container storage interface.

pub mod controller;
pub mod create_volume;
pub mod error;
pub mod identity;
pub mod listing;
pub mod names;
pub mod node;
pub mod paging;
pub mod publish;
pub mod publish_laws;
pub mod published;
pub mod server;
pub mod service_laws;
pub mod snapshot_laws;
pub mod snapshots;
pub mod volume_laws;
