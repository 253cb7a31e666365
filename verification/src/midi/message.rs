use vstd::prelude::*;

use midly::live::LiveEvent;
use midly::MidiMessage as Raw;

verus! {

/// A MIDI channel message, with its 7-bit data bytes as plain integers.
#[derive(Clone, Copy, PartialEq, Eq, Debug)]
pub enum MidiMessage {
    NoteOff { key: u8, vel: u8 },
    NoteOn { key: u8, vel: u8 },
    Controller { controller: u8, value: u8 },
    /// Any other channel message: polyphonic or channel aftertouch, program
    /// change or pitch bend. Nothing in the engine reacts to these.
    Other,
}

/// Whether `nibble`, the high nibble of a status byte, announces a message
/// of this kind.
pub open spec fn kind_matches_status(m: MidiMessage, nibble: u8) -> bool {
    match m {
        MidiMessage::NoteOff { .. } => nibble == 0x8,
        MidiMessage::NoteOn { .. } => nibble == 0x9,
        MidiMessage::Controller { .. } => nibble == 0xB,
        MidiMessage::Other => nibble == 0xA || (0xC <= nibble <= 0xE),
    }
}

/// Every data field is a 7-bit value.
pub open spec fn message_in_range(m: MidiMessage) -> bool {
    match m {
        MidiMessage::NoteOff { key, vel } => key < 128 && vel < 128,
        MidiMessage::NoteOn { key, vel } => key < 128 && vel < 128,
        MidiMessage::Controller { controller, value } => controller < 128 && value < 128,
        MidiMessage::Other => true,
    }
}
/// How many data bytes follow a channel message's status byte whose high
/// nibble is `kind`: one for program change (0xC) and channel aftertouch
/// (0xD), two for the others.
pub open spec fn data_length(kind: u8) -> int {
    if kind == 0xC || kind == 0xD {
        1
    } else {
        2
    }
}

/// The channel message in one packet of raw MIDI bytes: a status byte in
/// 0x80..=0xEF (high nibble the kind, low nibble the channel) followed by
/// its data bytes, each below 0x80 (bytes after those do not matter). A
/// note-off (0x8), note-on (0x9) or controller (0xB) message carries its
/// two data bytes; every other kind is `Other`. Anything else (no status
/// byte, a system message, missing or out-of-range data) gives `None`.
pub open spec fn live_channel_message(bytes: Seq<u8>) -> Option<(u8, MidiMessage)> {
    if bytes.len() == 0 || !(0x80 <= bytes[0] <= 0xEF) {
        None
    } else {
        let kind = bytes[0] / 16;
        let channel = bytes[0] % 16;
        if bytes.len() < 1 + data_length(kind) || bytes[1] >= 128 || (data_length(kind) == 2 && bytes[2] >= 128) {
            None
        } else if kind == 0x8 {
            Some((channel, MidiMessage::NoteOff { key: bytes[1], vel: bytes[2] }))
        } else if kind == 0x9 {
            Some((channel, MidiMessage::NoteOn { key: bytes[1], vel: bytes[2] }))
        } else if kind == 0xB {
            Some((channel, MidiMessage::Controller { controller: bytes[1], value: bytes[2] }))
        } else {
            Some((channel, MidiMessage::Other))
        }
    }
}

/// Calls `midly::live::LiveEvent::parse` and keeps its channel messages.
/// Claimed of it: the result is `live_channel_message` of the bytes, as
/// midly reads a status byte, cuts the data bytes at the first one above
/// 0x7F and requires as many as the kind needs. Kinds that the engine
/// ignores are all returned as `Other`.
#[verifier::external_body]
fn parse_live_event(bytes: &[u8]) -> (r: Option<(u8, MidiMessage)>)
    ensures
        r == live_channel_message(bytes@),
{
    match LiveEvent::parse(bytes) {
        Ok(LiveEvent::Midi { channel, message }) => Some((channel.into(), match message {
            Raw::NoteOff { key, vel } => MidiMessage::NoteOff { key: key.into(), vel: vel.into() },
            Raw::NoteOn { key, vel } => MidiMessage::NoteOn { key: key.into(), vel: vel.into() },
            Raw::Controller { controller, value } => MidiMessage::Controller { controller: controller.into(), value: value.into() },
            _ => MidiMessage::Other,
        })),
        _ => None,
    }
}

/// Reads one packet of raw bytes delivered by a MIDI input device; only
/// channel messages are kept.
pub fn read_live_message(bytes: &[u8]) -> (r: Option<(u8, MidiMessage)>)
    ensures
        r == live_channel_message(bytes@),
        r matches Some((c, m)) ==> c < 16 && message_in_range(m) && kind_matches_status(m, bytes@[0] / 16),
{
    parse_live_event(bytes)
}

} // verus!
