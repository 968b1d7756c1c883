//! The ceremony manager: pending challenges, registered credentials and the
//! flows that connect them.

pub mod registry;
pub mod actors;
pub mod backend;
pub mod bytes;
pub mod directory;
pub mod laws;
pub mod store;
