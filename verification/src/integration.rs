//! Remote music servers: track addresses, credentials and profiles.

pub mod keyring;
pub mod manager;
pub mod manager_laws;
pub mod uri;
