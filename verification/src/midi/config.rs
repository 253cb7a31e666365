use vstd::prelude::*;

use crate::midi::encoder::MidiEncoderMode;

verus! {

/// How one named variable of a MIDI mapping file is bound to incoming
/// messages.
#[derive(Clone, Copy, PartialEq, Eq, Debug)]
pub enum MidiVariableConfig {
    /// A continuous controller; its value starts at `default_value`, or 0.
    Control { channel: u8, number: u8, default_value: Option<u8> },
    /// A relative (endless) encoder sending its turns in the given mode.
    Encoder { channel: u8, number: u8, mode: MidiEncoderMode },
    /// A key, played with note-on and note-off messages.
    Note { channel: u8, number: u8 },
}

/// The contents of a MIDI mapping file: each variable's name and its binding.
/// A mapping file names each variable once (`names_distinct`).
pub type MidiMappingConfig = Vec<(String, MidiVariableConfig)>;

/// No two entries of a mapping name the same variable, whatever their kinds.
pub open spec fn names_distinct(config: Seq<(String, MidiVariableConfig)>) -> bool {
    forall|i: int, j: int| 0 <= i < j < config.len() ==> (#[trigger] config[i]).0@ != (#[trigger] config[j]).0@
}

} // verus!
