use vstd::prelude::*;

verus! {

/// The two conventions in which relative encoders report a turn.
#[derive(Clone, Copy, PartialEq, Eq, Debug)]
pub enum MidiEncoderMode {
    /// "7Fh/01h": values up to 64 (01h upwards) turn up, 65 to 127 (up to 7Fh) turn down.
    Mode7fh01h,
    /// "3Fh/41h": values 65 to 127 (41h upwards) turn up, values up to 63 (3Fh) turn down.
    Mode3fh41h,
}

/// What a sketch can read of an encoder.
pub struct EncoderState {
    pub mode: MidiEncoderMode,
    pub is_increment: bool,
    pub is_decrement: bool,
}

impl EncoderState {
    /// The state after a controller message with `value` reached the encoder.
    /// A turn sets its flag; nothing clears a flag but the end of a sketch update.
    pub open spec fn after_change(self, value: u8) -> EncoderState {
        match self.mode {
            MidiEncoderMode::Mode7fh01h => {
                if value <= 64 {
                    EncoderState { mode: self.mode, is_increment: true, is_decrement: self.is_decrement }
                } else if 65 <= value <= 127 {
                    EncoderState { mode: self.mode, is_increment: self.is_increment, is_decrement: true }
                } else {
                    self
                }
            },
            MidiEncoderMode::Mode3fh41h => {
                if 65 <= value <= 127 {
                    EncoderState { mode: self.mode, is_increment: true, is_decrement: self.is_decrement }
                } else if value <= 63 {
                    EncoderState { mode: self.mode, is_increment: self.is_increment, is_decrement: true }
                } else {
                    self
                }
            },
        }
    }

    /// A turn registered twice before the flags are cleared counts once.
    pub proof fn lemma_after_change_idempotent(self, value: u8)
        ensures
            self.after_change(value).after_change(value) == self.after_change(value),
    {
    }

    /// The state once a sketch update is over: both flags are cleared.
    pub open spec fn after_sketch_update(self) -> EncoderState {
        EncoderState { mode: self.mode, is_increment: false, is_decrement: false }
    }
}

/// A relative (endless) encoder. It remembers whether it was turned up or
/// down since the end of the last sketch update.
#[derive(Clone, Copy, Debug)]
pub struct MidiEncoder {
    mode: MidiEncoderMode,
    is_increment: bool,
    is_decrement: bool,
}

impl View for MidiEncoder {
    type V = EncoderState;

    closed spec fn view(&self) -> EncoderState {
        EncoderState { mode: self.mode, is_increment: self.is_increment, is_decrement: self.is_decrement }
    }
}

impl MidiEncoder {
    pub fn new(mode: MidiEncoderMode) -> (e: Self)
        ensures
            e@ == (EncoderState { mode, is_increment: false, is_decrement: false }),
    {
        MidiEncoder { mode, is_increment: false, is_decrement: false }
    }

    pub fn is_increment(&self) -> (b: bool)
        ensures
            b == self@.is_increment,
    {
        self.is_increment
    }

    pub fn is_decrement(&self) -> (b: bool)
        ensures
            b == self@.is_decrement,
    {
        self.is_decrement
    }

    /// Records a controller value sent by the encoder.
    pub fn changed(&mut self, value: u8)
        ensures
            final(self)@ == old(self)@.after_change(value),
    {
        match self.mode {
            MidiEncoderMode::Mode7fh01h => {
                if value <= 64 {
                    self.is_increment = true;
                } else if 65 <= value && value <= 127 {
                    self.is_decrement = true;
                }
            },
            MidiEncoderMode::Mode3fh41h => {
                if 65 <= value && value <= 127 {
                    self.is_increment = true;
                } else if value <= 63 {
                    self.is_decrement = true;
                }
            },
        }
    }

    /// Clears both flags at the end of a sketch update.
    pub fn after_sketch_update(&mut self)
        ensures
            final(self)@ == old(self)@.after_sketch_update(),
    {
        self.is_increment = false;
        self.is_decrement = false;
    }
}

} // verus!
