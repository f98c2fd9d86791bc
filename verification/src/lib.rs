//! An entity-component-system core with a verified type-keyed store,
//! ordered system execution, an event bus, and a generic GPU buffer
//! lifecycle manager.

pub mod buffer_manager;
pub mod ecs;
pub mod engine;
pub mod error;
pub mod init;
pub mod movement;
pub mod platform;
pub mod shared_helpers;
pub mod store;
