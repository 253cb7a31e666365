use vstd::prelude::*;

verus! {

/// A continuous MIDI controller. It holds the last raw 7-bit value received;
/// the value a sketch reads is that raw value divided by 127.
#[derive(Clone, Copy, Debug)]
pub struct MidiControl {
    value: u8,
}

impl View for MidiControl {
    type V = u8;

    closed spec fn view(&self) -> u8 {
        self.value
    }
}

impl MidiControl {
    /// A controller that starts at `default_value`, or at 0 when none is given.
    pub fn new(default_value: Option<u8>) -> (c: Self)
        ensures
            c@ == match default_value {
                Some(v) => v,
                None => 0u8,
            },
    {
        let value = match default_value {
            Some(v) => v,
            None => 0,
        };
        MidiControl { value }
    }

    /// The last raw value received (or the default).
    pub fn value(&self) -> (v: u8)
        ensures
            v == self@,
    {
        self.value
    }

    /// Records a new raw controller value.
    pub fn changed(&mut self, value: u8)
        ensures
            final(self)@ == value,
    {
        self.value = value;
    }
}

} // verus!
