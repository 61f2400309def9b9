//! Issues batches of random identifiers for camera capture sessions and
//! checks them against the identifiers recorded before.

pub mod identifier;
pub mod record;
pub mod category;
pub mod date;
pub mod pipeline;
pub mod args;
