//! Verified core of the Visor live-coding engine: the bookkeeping that the
//! engine, its sketches and its plugins (MIDI, state, log, draw, time) run on.

pub mod name_map;
pub mod midi;
pub mod log_plugin;
pub mod state_plugin;
pub mod id_map;
pub mod draw;
pub mod sketch;
pub mod engine;
pub mod time;
pub mod shader;
pub mod module_loader;
pub mod engine_update;
