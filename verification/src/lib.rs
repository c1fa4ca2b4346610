//! Btrfs CSI driver: the decisions, parsers and wire formats of the driver.

pub mod csi;
pub mod exchange;
pub mod identifier;
pub mod number;
pub mod numeral;
pub mod ops;
pub mod protocol;
pub mod quantity;
pub mod table;
pub mod text;
pub mod text_laws;
pub mod time;
