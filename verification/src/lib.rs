//! Verified logic of a desktop music player.

pub mod cast;
pub mod config;
pub mod config_persistence;
pub mod database;
pub mod document;
pub mod integration;
pub mod json;
pub mod layout;
pub mod library;
pub mod percent;
pub mod protocol;
pub mod single;
pub mod single_laws;
pub mod text;
pub mod text_laws;
