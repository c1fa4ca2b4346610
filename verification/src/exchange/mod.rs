//! The exchange engine: membership, replication and maintenance.

pub mod config;
pub mod duration;
pub mod gossip;
pub mod lease_laws;
pub mod maintenance_laws;
pub mod membership_laws;
pub mod quorum;
pub mod receiver;
pub mod replication_laws;
pub mod replicator;
pub mod round;
pub mod scheduler;
pub mod stream;
pub mod transfer_laws;
pub mod volume_manager;
