//! The documents that the provisioning rules read, as plain data.

pub mod forge;
pub mod version;
