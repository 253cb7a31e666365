use vstd::prelude::*;

use crate::midi::control::MidiControl;
use crate::midi::encoder::{EncoderState, MidiEncoder};
use crate::midi::error::MidiError;
use crate::midi::note::{MidiNote, NoteState};
use crate::name_map::NameMap;

verus! {

/// The variables of a mapping as a sketch sees them: raw controller values,
/// encoder flags and key states, each by name.
pub struct VariablesView {
    pub controls: Map<Seq<char>, u8>,
    pub encoders: Map<Seq<char>, EncoderState>,
    pub notes: Map<Seq<char>, NoteState>,
}

/// The named controllers, encoders and keys of a MIDI mapping.
pub struct MidiVariables {
    pub(crate) controls: NameMap<MidiControl>,
    pub(crate) encoders: NameMap<MidiEncoder>,
    pub(crate) notes: NameMap<MidiNote>,
}

impl View for MidiVariables {
    type V = VariablesView;

    closed spec fn view(&self) -> VariablesView {
        VariablesView {
            controls: self.controls@.map_values(|c: MidiControl| c@),
            encoders: self.encoders@.map_values(|e: MidiEncoder| e@),
            notes: self.notes@.map_values(|n: MidiNote| n@),
        }
    }
}

impl MidiVariables {
    pub closed spec fn wf(&self) -> bool {
        &&& self.controls.wf()
        &&& self.encoders.wf()
        &&& self.notes.wf()
    }

    pub(crate) proof fn lemma_wf(&self)
        ensures
            self.wf() <==> (self.controls.wf() && self.encoders.wf() && self.notes.wf()),
    {
    }

    pub(crate) proof fn lemma_view(&self)
        ensures
            self@.controls == self.controls@.map_values(|c: MidiControl| c@),
            self@.encoders == self.encoders@.map_values(|e: MidiEncoder| e@),
            self@.notes == self.notes@.map_values(|n: MidiNote| n@),
    {
    }

    /// No variables at all.
    pub fn new() -> (v: Self)
        ensures
            v.wf(),
            v@.controls == Map::<Seq<char>, u8>::empty(),
            v@.encoders == Map::<Seq<char>, EncoderState>::empty(),
            v@.notes == Map::<Seq<char>, NoteState>::empty(),
    {
        let v = MidiVariables { controls: NameMap::new(), encoders: NameMap::new(), notes: NameMap::new() };
        assert(v@.controls =~= Map::<Seq<char>, u8>::empty());
        assert(v@.encoders =~= Map::<Seq<char>, EncoderState>::empty());
        assert(v@.notes =~= Map::<Seq<char>, NoteState>::empty());
        v
    }

    /// A copy of the variables, handed to a sketch for one update.
    pub fn snapshot(&self) -> (r: Self)
        requires
            self.wf(),
        ensures
            r.wf(),
            r@ == self@,
    {
        MidiVariables {
            controls: self.controls.duplicate(),
            encoders: self.encoders.duplicate(),
            notes: self.notes.duplicate(),
        }
    }

    /// The raw value of the controller `name`.
    pub fn control_value(&self, name: &str) -> (r: Result<u8, MidiError>)
        requires
            self.wf(),
        ensures
            self@.controls.contains_key(name@) ==> r == Ok::<u8, MidiError>(self@.controls[name@]),
            !self@.controls.contains_key(name@) ==> (r matches Err(MidiError::ControlNotFound(n)) && n@ == name@),
    {
        match self.controls.get(name) {
            Some(c) => Ok(c.value()),
            None => Err(MidiError::ControlNotFound(name.to_owned())),
        }
    }

    /// Whether the encoder `name` was turned up during the current update.
    pub fn is_encoder_increment(&self, name: &str) -> (r: Result<bool, MidiError>)
        requires
            self.wf(),
        ensures
            self@.encoders.contains_key(name@) ==> r == Ok::<bool, MidiError>(self@.encoders[name@].is_increment),
            !self@.encoders.contains_key(name@) ==> (r matches Err(MidiError::EncoderNotFound(n)) && n@ == name@),
    {
        match self.encoders.get(name) {
            Some(e) => Ok(e.is_increment()),
            None => Err(MidiError::EncoderNotFound(name.to_owned())),
        }
    }

    /// Whether the encoder `name` was turned down during the current update.
    pub fn is_encoder_decrement(&self, name: &str) -> (r: Result<bool, MidiError>)
        requires
            self.wf(),
        ensures
            self@.encoders.contains_key(name@) ==> r == Ok::<bool, MidiError>(self@.encoders[name@].is_decrement),
            !self@.encoders.contains_key(name@) ==> (r matches Err(MidiError::EncoderNotFound(n)) && n@ == name@),
    {
        match self.encoders.get(name) {
            Some(e) => Ok(e.is_decrement()),
            None => Err(MidiError::EncoderNotFound(name.to_owned())),
        }
    }

    /// Whether the key `name` was pressed during the current update.
    pub fn is_note_on(&self, name: &str) -> (r: Result<bool, MidiError>)
        requires
            self.wf(),
        ensures
            self@.notes.contains_key(name@) ==> r == Ok::<bool, MidiError>(self@.notes[name@].is_on),
            !self@.notes.contains_key(name@) ==> (r matches Err(MidiError::NoteNotFound(n)) && n@ == name@),
    {
        match self.notes.get(name) {
            Some(n) => Ok(n.is_on()),
            None => Err(MidiError::NoteNotFound(name.to_owned())),
        }
    }

    /// Whether the key `name` was released during the current update.
    pub fn is_note_off(&self, name: &str) -> (r: Result<bool, MidiError>)
        requires
            self.wf(),
        ensures
            self@.notes.contains_key(name@) ==> r == Ok::<bool, MidiError>(self@.notes[name@].is_off),
            !self@.notes.contains_key(name@) ==> (r matches Err(MidiError::NoteNotFound(n)) && n@ == name@),
    {
        match self.notes.get(name) {
            Some(n) => Ok(n.is_off()),
            None => Err(MidiError::NoteNotFound(name.to_owned())),
        }
    }

    /// Whether the key `name` is held down.
    pub fn is_note_down(&self, name: &str) -> (r: Result<bool, MidiError>)
        requires
            self.wf(),
        ensures
            self@.notes.contains_key(name@) ==> r == Ok::<bool, MidiError>(self@.notes[name@].is_down),
            !self@.notes.contains_key(name@) ==> (r matches Err(MidiError::NoteNotFound(n)) && n@ == name@),
    {
        match self.notes.get(name) {
            Some(n) => Ok(n.is_down()),
            None => Err(MidiError::NoteNotFound(name.to_owned())),
        }
    }

    /// The raw velocity of the last note-on or note-off of key `name`.
    pub fn note_velocity(&self, name: &str) -> (r: Result<u8, MidiError>)
        requires
            self.wf(),
        ensures
            self@.notes.contains_key(name@) ==> r == Ok::<u8, MidiError>(self@.notes[name@].velocity),
            !self@.notes.contains_key(name@) ==> (r matches Err(MidiError::NoteNotFound(n)) && n@ == name@),
    {
        match self.notes.get(name) {
            Some(n) => Ok(n.velocity()),
            None => Err(MidiError::NoteNotFound(name.to_owned())),
        }
    }
}

} // verus!
