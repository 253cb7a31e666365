//! MIDI input: the variables that a mapping file declares, how incoming
//! controller and note messages change them, and the plugin's bookkeeping of
//! connected input devices.

pub mod config;
pub mod control;
pub mod encoder;
pub mod error;
pub mod mapping;
pub mod message;
pub mod note;
pub mod plugin;
pub mod variables;
