//! The services of the command workspace.

pub mod assistant;
pub mod messaging;
pub mod space_updates_service;
