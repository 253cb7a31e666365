use vstd::prelude::*;

verus! {

/// What a sketch can read of a key. `velocity` is the raw 7-bit velocity of
/// the last note-on or note-off; a sketch reads it divided by 127.
pub struct NoteState {
    pub is_on: bool,
    pub is_off: bool,
    pub is_down: bool,
    pub velocity: u8,
}

impl NoteState {
    /// The state after a note-on with `velocity`.
    pub open spec fn after_on(self, velocity: u8) -> NoteState {
        NoteState { is_on: true, is_off: self.is_off, is_down: true, velocity }
    }

    /// The state after a note-off with `velocity`.
    pub open spec fn after_off(self, velocity: u8) -> NoteState {
        NoteState { is_on: self.is_on, is_off: true, is_down: false, velocity }
    }

    /// The state once a sketch update is over: the one-update flags `is_on`
    /// and `is_off` are cleared, whether the key is held and the velocity stay.
    pub open spec fn after_sketch_update(self) -> NoteState {
        NoteState { is_on: false, is_off: false, is_down: self.is_down, velocity: self.velocity }
    }
}

/// Pressing a key and releasing it within one update leaves it released,
/// with both one-update flags set and the release velocity.
pub proof fn law_press_then_release(s: NoteState, on_velocity: u8, off_velocity: u8)
    ensures
        ({
            let t = s.after_on(on_velocity).after_off(off_velocity);
            &&& !t.is_down
            &&& t.is_on
            &&& t.is_off
            &&& t.velocity == off_velocity
        }),
{
}

/// Each message sets only its own one-update flag: a note-on never clears
/// the note-off flag and a note-off never clears the note-on flag; both
/// flags last until the update is over.
pub proof fn law_flags_are_kept_within_update(s: NoteState, velocity: u8)
    ensures
        s.after_on(velocity).is_on,
        s.after_on(velocity).is_off == s.is_off,
        s.after_off(velocity).is_off,
        s.after_off(velocity).is_on == s.is_on,
        !s.after_sketch_update().is_on && !s.after_sketch_update().is_off,
{
}

/// Releasing a key and striking it again within one update leaves it held,
/// with both one-update flags set (the release is not lost) and the new
/// velocity.
pub proof fn law_release_then_strike(s: NoteState, off_velocity: u8, on_velocity: u8)
    ensures
        ({
            let t = s.after_off(off_velocity).after_on(on_velocity);
            &&& t.is_down
            &&& t.is_on
            &&& t.is_off
            &&& t.velocity == on_velocity
        }),
{
}

/// A key of a MIDI instrument.
#[derive(Clone, Copy, Debug)]
pub struct MidiNote {
    is_on: bool,
    is_off: bool,
    is_down: bool,
    velocity: u8,
}

impl View for MidiNote {
    type V = NoteState;

    closed spec fn view(&self) -> NoteState {
        NoteState { is_on: self.is_on, is_off: self.is_off, is_down: self.is_down, velocity: self.velocity }
    }
}

impl MidiNote {
    pub fn new() -> (n: Self)
        ensures
            n@ == (NoteState { is_on: false, is_off: false, is_down: false, velocity: 0 }),
    {
        MidiNote { is_on: false, is_off: false, is_down: false, velocity: 0 }
    }

    /// Whether a note-on arrived during the current sketch update.
    pub fn is_on(&self) -> (b: bool)
        ensures
            b == self@.is_on,
    {
        self.is_on
    }

    /// Whether a note-off arrived during the current sketch update.
    pub fn is_off(&self) -> (b: bool)
        ensures
            b == self@.is_off,
    {
        self.is_off
    }

    /// Whether the key is held down.
    pub fn is_down(&self) -> (b: bool)
        ensures
            b == self@.is_down,
    {
        self.is_down
    }

    /// The raw velocity of the last note-on or note-off.
    pub fn velocity(&self) -> (v: u8)
        ensures
            v == self@.velocity,
    {
        self.velocity
    }

    pub fn on(&mut self, velocity: u8)
        ensures
            final(self)@ == old(self)@.after_on(velocity),
    {
        self.is_on = true;
        self.is_down = true;
        self.velocity = velocity;
    }

    pub fn off(&mut self, velocity: u8)
        ensures
            final(self)@ == old(self)@.after_off(velocity),
    {
        self.is_off = true;
        self.is_down = false;
        self.velocity = velocity;
    }

    pub fn after_sketch_update(&mut self)
        ensures
            final(self)@ == old(self)@.after_sketch_update(),
    {
        self.is_on = false;
        self.is_off = false;
    }
}

} // verus!
