//! Rotating sentence log: record encoding, row counting, rotation decisions,
//! the shared settings map and the control-channel dispatcher.

pub mod control;
pub mod decimal;
pub mod keys;
pub mod layout;
pub mod model;
pub mod record;
pub mod settings;
pub mod submit;
