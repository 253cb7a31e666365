use vstd::prelude::*;

use crate::midi::error::MidiError;
use crate::midi::mapping::{events_view, process_message_spec, MappingView, MidiMapping, MidiMappingEvent};
use crate::midi::message::MidiMessage;
use crate::midi::variables::{MidiVariables, VariablesView};
use crate::name_map::{contains_name, string_views, NameMap};

verus! {

/// What one sketch sees of the MIDI plugin during an update: the names of
/// the connected input devices and, once a mapping is loaded, a copy of its
/// variables.
pub struct SketchMidiState {
    pub input_connections: Vec<String>,
    pub variables: Option<MidiVariables>,
}

impl SketchMidiState {
    pub open spec fn connections(&self) -> Seq<Seq<char>> {
        string_views(self.input_connections@)
    }

    pub open spec fn wf(&self) -> bool {
        self.variables matches Some(v) ==> v.wf()
    }

    /// The variables as plain values, if a mapping is loaded.
    pub open spec fn variables_view(&self) -> Option<VariablesView> {
        match self.variables {
            Some(v) => Some(v@),
            None => None,
        }
    }

    /// A sketch asks to connect the input device `name`: refused when it is
    /// connected already.
    pub fn check_connect(&self, name: &str) -> (r: Result<(), MidiError>)
        ensures
            !self.connections().contains(name@) ==> r is Ok,
            self.connections().contains(name@) ==> (r matches Err(MidiError::DeviceAlreadyConnected(n)) && n@ == name@),
    {
        if contains_name(&self.input_connections, name) {
            Err(MidiError::DeviceAlreadyConnected(name.to_owned()))
        } else {
            Ok(())
        }
    }

    /// A sketch asks to disconnect the input device `name`: refused when it
    /// is not connected.
    pub fn check_disconnect(&self, name: &str) -> (r: Result<(), MidiError>)
        ensures
            self.connections().contains(name@) ==> r is Ok,
            !self.connections().contains(name@) ==> (r matches Err(MidiError::DeviceNotConnected(n)) && n@ == name@),
    {
        if contains_name(&self.input_connections, name) {
            Ok(())
        } else {
            Err(MidiError::DeviceNotConnected(name.to_owned()))
        }
    }

    /// A sketch loaded a mapping: from now on it reads that mapping's variables.
    pub fn set_variables(&mut self, variables: MidiVariables)
        requires
            variables.wf(),
        ensures
            final(self).wf(),
            final(self).variables_view() == Some(variables@),
            final(self).connections() == old(self).connections(),
    {
        self.variables = Some(variables);
    }

    /// The raw value of controller `name`.
    pub fn control_value(&self, name: &str) -> (r: Result<u8, MidiError>)
        requires
            self.wf(),
        ensures
            self.variables_view() is None ==> r == Err::<u8, MidiError>(MidiError::NoMappingLoaded),
            self.variables_view() matches Some(v) ==> {
                &&& v.controls.contains_key(name@) ==> r == Ok::<u8, MidiError>(v.controls[name@])
                &&& !v.controls.contains_key(name@) ==> (r matches Err(MidiError::ControlNotFound(n)) && n@ == name@)
            },
    {
        match &self.variables {
            Some(v) => v.control_value(name),
            None => Err(MidiError::NoMappingLoaded),
        }
    }

    /// Whether encoder `name` was turned up during this update.
    pub fn encoder_increment(&self, name: &str) -> (r: Result<bool, MidiError>)
        requires
            self.wf(),
        ensures
            self.variables_view() is None ==> r == Err::<bool, MidiError>(MidiError::NoMappingLoaded),
            self.variables_view() matches Some(v) ==> {
                &&& v.encoders.contains_key(name@) ==> r == Ok::<bool, MidiError>(v.encoders[name@].is_increment)
                &&& !v.encoders.contains_key(name@) ==> (r matches Err(MidiError::EncoderNotFound(n)) && n@ == name@)
            },
    {
        match &self.variables {
            Some(v) => v.is_encoder_increment(name),
            None => Err(MidiError::NoMappingLoaded),
        }
    }

    /// Whether encoder `name` was turned down during this update.
    pub fn encoder_decrement(&self, name: &str) -> (r: Result<bool, MidiError>)
        requires
            self.wf(),
        ensures
            self.variables_view() is None ==> r == Err::<bool, MidiError>(MidiError::NoMappingLoaded),
            self.variables_view() matches Some(v) ==> {
                &&& v.encoders.contains_key(name@) ==> r == Ok::<bool, MidiError>(v.encoders[name@].is_decrement)
                &&& !v.encoders.contains_key(name@) ==> (r matches Err(MidiError::EncoderNotFound(n)) && n@ == name@)
            },
    {
        match &self.variables {
            Some(v) => v.is_encoder_decrement(name),
            None => Err(MidiError::NoMappingLoaded),
        }
    }

    /// Whether key `name` was pressed during this update.
    pub fn note_on(&self, name: &str) -> (r: Result<bool, MidiError>)
        requires
            self.wf(),
        ensures
            self.variables_view() is None ==> r == Err::<bool, MidiError>(MidiError::NoMappingLoaded),
            self.variables_view() matches Some(v) ==> {
                &&& v.notes.contains_key(name@) ==> r == Ok::<bool, MidiError>(v.notes[name@].is_on)
                &&& !v.notes.contains_key(name@) ==> (r matches Err(MidiError::NoteNotFound(n)) && n@ == name@)
            },
    {
        match &self.variables {
            Some(v) => v.is_note_on(name),
            None => Err(MidiError::NoMappingLoaded),
        }
    }

    /// Whether key `name` was released during this update.
    pub fn note_off(&self, name: &str) -> (r: Result<bool, MidiError>)
        requires
            self.wf(),
        ensures
            self.variables_view() is None ==> r == Err::<bool, MidiError>(MidiError::NoMappingLoaded),
            self.variables_view() matches Some(v) ==> {
                &&& v.notes.contains_key(name@) ==> r == Ok::<bool, MidiError>(v.notes[name@].is_off)
                &&& !v.notes.contains_key(name@) ==> (r matches Err(MidiError::NoteNotFound(n)) && n@ == name@)
            },
    {
        match &self.variables {
            Some(v) => v.is_note_off(name),
            None => Err(MidiError::NoMappingLoaded),
        }
    }

    /// Whether key `name` is held down.
    pub fn note_down(&self, name: &str) -> (r: Result<bool, MidiError>)
        requires
            self.wf(),
        ensures
            self.variables_view() is None ==> r == Err::<bool, MidiError>(MidiError::NoMappingLoaded),
            self.variables_view() matches Some(v) ==> {
                &&& v.notes.contains_key(name@) ==> r == Ok::<bool, MidiError>(v.notes[name@].is_down)
                &&& !v.notes.contains_key(name@) ==> (r matches Err(MidiError::NoteNotFound(n)) && n@ == name@)
            },
    {
        match &self.variables {
            Some(v) => v.is_note_down(name),
            None => Err(MidiError::NoMappingLoaded),
        }
    }

    /// The raw velocity of the last note-on or note-off of key `name`.
    pub fn note_velocity(&self, name: &str) -> (r: Result<u8, MidiError>)
        requires
            self.wf(),
        ensures
            self.variables_view() is None ==> r == Err::<u8, MidiError>(MidiError::NoMappingLoaded),
            self.variables_view() matches Some(v) ==> {
                &&& v.notes.contains_key(name@) ==> r == Ok::<u8, MidiError>(v.notes[name@].velocity)
                &&& !v.notes.contains_key(name@) ==> (r matches Err(MidiError::NoteNotFound(n)) && n@ == name@)
            },
    {
        match &self.variables {
            Some(v) => v.note_velocity(name),
            None => Err(MidiError::NoMappingLoaded),
        }
    }
}

/// The names of the input ports that could be read, in port order.
pub open spec fn readable_names(names: Seq<Option<String>>) -> Seq<Seq<char>>
    decreases names.len(),
{
    if names.len() == 0 {
        Seq::empty()
    } else {
        let prev = readable_names(names.drop_last());
        match names.last() {
            Some(n) => prev.push(n@),
            None => prev,
        }
    }
}

/// Whether the port at `i` has the readable name `name`.
pub open spec fn port_named(names: Seq<Option<String>>, i: int, name: Seq<char>) -> bool {
    names[i] matches Some(n) && n@ == name
}

/// The input devices a sketch can connect to: the names of the ports whose
/// name could be read (`None` stands for a port whose name could not be),
/// in port order.
pub fn input_device_names(port_names: &Vec<Option<String>>) -> (r: Vec<String>)
    ensures
        string_views(r@) == readable_names(port_names@),
{
    let mut r: Vec<String> = Vec::new();
    let mut i: usize = 0;
    while i < port_names.len()
        invariant
            i <= port_names@.len(),
            string_views(r@) == readable_names(port_names@.take(i as int)),
        decreases port_names@.len() - i,
    {
        proof {
            assert(port_names@.take(i + 1).drop_last() =~= port_names@.take(i as int));
        }
        match &port_names[i] {
            Some(n) => {
                r.push(n.clone());
                proof {
                    assert(string_views(r@) =~= readable_names(port_names@.take(i as int)).push(n@));
                }
            },
            None => {},
        }
        i = i + 1;
    }
    proof {
        assert(port_names@.take(port_names@.len() as int) =~= port_names@);
    }
    r
}

/// The port to connect for the input device `name`: the first port whose
/// name could be read and is `name`; when there is none, the device cannot
/// be found.
pub fn find_input_port(port_names: &Vec<Option<String>>, name: &str) -> (r: Result<usize, MidiError>)
    ensures
        r matches Ok(i) ==> {
            &&& i < port_names@.len()
            &&& port_named(port_names@, i as int, name@)
            &&& forall|j: int| 0 <= j < i ==> !port_named(port_names@, j, name@)
        },
        r is Err <==> forall|j: int| 0 <= j < port_names@.len() ==> !port_named(port_names@, j, name@),
        r matches Err(e) ==> (e matches MidiError::PortNotFound(n) && n@ == name@),
{
    let key = name.to_owned();
    let mut i: usize = 0;
    while i < port_names.len()
        invariant
            i <= port_names@.len(),
            key@ == name@,
            forall|j: int| 0 <= j < i ==> !port_named(port_names@, j, name@),
        decreases port_names@.len() - i,
    {
        match &port_names[i] {
            Some(n) => {
                if *n == key {
                    proof {
                        assert(port_named(port_names@, i as int, name@));
                    }
                    return Ok(i);
                }
            },
            None => {},
        }
        i = i + 1;
    }
    Err(MidiError::PortNotFound(key))
}

/// The plugin that maps MIDI input to variables that sketches read.
pub struct MidiPlugin;

impl MidiPlugin {
    /// The engine-side state the plugin starts with: no connection, no mapping.
    pub fn new_state<C>() -> (s: MidiPluginState<C>)
        ensures
            s.wf(),
            s.connections() == Map::<Seq<char>, C>::empty(),
            s.mapping() is None,
    {
        MidiPluginState::new()
    }
}

/// A connection that was added can be removed again under its name, and
/// removing hands back that very connection.
pub proof fn law_remove_returns_added<C>(connections: Map<Seq<char>, C>, name: Seq<char>, connection: C)
    ensures
        connections.insert(name, connection).contains_key(name),
        connections.insert(name, connection)[name] == connection,
        connections.insert(name, connection).remove(name) == connections.remove(name),
{
    assert(connections.insert(name, connection).remove(name) =~= connections.remove(name));
}

/// A request that a sketch sends to the engine-side MIDI plugin; `C` is an
/// open connection to an input device.
pub enum MidiPluginEvent<C> {
    AddInputConnection(String, C),
    RemoveInputConnection(String),
    LoadMapping(MidiMapping),
}

/// The engine-side state of the MIDI plugin: the open input connections by
/// device name, and the loaded mapping, if any.
pub struct MidiPluginState<C> {
    input_connections: NameMap<C>,
    midi_mapping: Option<MidiMapping>,
}

impl<C> MidiPluginState<C> {
    /// The open connections by device name.
    pub closed spec fn connections(&self) -> Map<Seq<char>, C> {
        self.input_connections@
    }

    /// The loaded mapping, as plain values.
    pub closed spec fn mapping(&self) -> Option<MappingView> {
        match self.midi_mapping {
            Some(m) => Some(m@),
            None => None,
        }
    }

    pub closed spec fn wf(&self) -> bool {
        &&& self.input_connections.wf()
        &&& self.midi_mapping matches Some(m) ==> m.wf()
    }

    /// No connection and no mapping.
    pub fn new() -> (s: Self)
        ensures
            s.wf(),
            s.connections() == Map::<Seq<char>, C>::empty(),
            s.mapping() is None,
    {
        MidiPluginState { input_connections: NameMap::new(), midi_mapping: None }
    }

    /// The engine is asked to connect the input device `name`: refused when
    /// it is connected already.
    pub fn check_connect(&self, name: &str) -> (r: Result<(), MidiError>)
        requires
            self.wf(),
        ensures
            !self.connections().contains_key(name@) ==> r is Ok,
            self.connections().contains_key(name@) ==> (r matches Err(MidiError::DeviceAlreadyConnected(n)) && n@ == name@),
    {
        match self.input_connections.find(name) {
            Some(_) => Err(MidiError::DeviceAlreadyConnected(name.to_owned())),
            None => Ok(()),
        }
    }

    /// Keeps a new connection under `name`. A connection already kept under
    /// that name is replaced (and dropped).
    pub fn add_connection(&mut self, name: String, connection: C)
        requires
            old(self).wf(),
        ensures
            final(self).wf(),
            final(self).connections() == old(self).connections().insert(name@, connection),
            final(self).mapping() == old(self).mapping(),
    {
        self.input_connections.insert(name, connection);
    }

    /// Forgets the connection `name` and hands it back, to be closed.
    pub fn remove_connection(&mut self, name: &str) -> (r: Option<C>)
        requires
            old(self).wf(),
        ensures
            final(self).wf(),
            final(self).connections() == old(self).connections().remove(name@),
            r is Some <==> old(self).connections().contains_key(name@),
            r matches Some(c) ==> c == old(self).connections()[name@],
            final(self).mapping() == old(self).mapping(),
    {
        self.input_connections.remove(name)
    }

    /// Replaces the loaded mapping.
    pub fn load_mapping(&mut self, mapping: MidiMapping)
        requires
            old(self).wf(),
            mapping.wf(),
        ensures
            final(self).wf(),
            final(self).connections() == old(self).connections(),
            final(self).mapping() == Some(mapping@),
    {
        self.midi_mapping = Some(mapping);
    }

    /// Applies a request sent by a sketch. A connection that the request
    /// removes is handed back, to be closed.
    pub fn handle_event(&mut self, event: MidiPluginEvent<C>) -> (r: Option<C>)
        requires
            old(self).wf(),
            event matches MidiPluginEvent::LoadMapping(m) ==> m.wf(),
        ensures
            final(self).wf(),
            match event {
                MidiPluginEvent::AddInputConnection(name, c) => {
                    &&& final(self).connections() == old(self).connections().insert(name@, c)
                    &&& final(self).mapping() == old(self).mapping()
                    &&& r is None
                },
                MidiPluginEvent::RemoveInputConnection(name) => {
                    &&& final(self).connections() == old(self).connections().remove(name@)
                    &&& final(self).mapping() == old(self).mapping()
                    &&& (r is Some <==> old(self).connections().contains_key(name@))
                    &&& (r matches Some(c) ==> c == old(self).connections()[name@])
                },
                MidiPluginEvent::LoadMapping(m) => {
                    &&& final(self).connections() == old(self).connections()
                    &&& final(self).mapping() == Some(m@)
                    &&& r is None
                },
            },
    {
        match event {
            MidiPluginEvent::AddInputConnection(name, c) => {
                self.add_connection(name, c);
                None
            },
            MidiPluginEvent::RemoveInputConnection(name) => self.remove_connection(name.as_str()),
            MidiPluginEvent::LoadMapping(m) => {
                self.load_mapping(m);
                None
            },
        }
    }

    /// Hands a message that arrived from an input device to the loaded
    /// mapping; without a mapping it is dropped.
    pub fn process_message(&mut self, channel: u8, message: MidiMessage) -> (events: Vec<(String, MidiMappingEvent)>)
        requires
            old(self).wf(),
        ensures
            final(self).wf(),
            final(self).connections() == old(self).connections(),
            old(self).mapping() is None ==> final(self).mapping() is None && events@.len() == 0,
            old(self).mapping() matches Some(pre) ==> final(self).mapping() matches Some(post)
                && process_message_spec(pre, post, channel, message, events_view(events@)),
    {
        match &mut self.midi_mapping {
            Some(m) => m.process_message(channel, message),
            None => Vec::new(),
        }
    }

    /// Ends an engine update: the loaded mapping clears its one-update flags.
    pub fn after_engine_update(&mut self)
        requires
            old(self).wf(),
        ensures
            final(self).wf(),
            final(self).connections() == old(self).connections(),
            old(self).mapping() is None ==> final(self).mapping() is None,
            old(self).mapping() matches Some(pre) ==> final(self).mapping() matches Some(post) && {
                &&& post.variables.controls == pre.variables.controls
                &&& post.variables.encoders == pre.variables.encoders.map_values(|s: crate::midi::encoder::EncoderState| s.after_sketch_update())
                &&& post.variables.notes == pre.variables.notes.map_values(|s: crate::midi::note::NoteState| s.after_sketch_update())
                &&& post.control_routes == pre.control_routes
                &&& post.encoder_routes == pre.encoder_routes
                &&& post.note_routes == pre.note_routes
            },
    {
        match &mut self.midi_mapping {
            Some(m) => m.after_sketch_update(),
            None => {},
        }
    }

    /// What a sketch sees during its next update: the connected device names
    /// and a copy of the mapping's variables.
    pub fn sketch_state(&self) -> (s: SketchMidiState)
        requires
            self.wf(),
        ensures
            s.wf(),
            forall|k: Seq<char>| s.connections().contains(k) <==> self.connections().contains_key(k),
            self.mapping() is None ==> s.variables_view() is None,
            self.mapping() matches Some(m) ==> s.variables_view() == Some(m.variables),
    {
        let names = self.input_connections.names();
        proof {
            assert forall|k: Seq<char>| string_views(names@).contains(k) <==> self.connections().contains_key(k) by {
                self.input_connections.lemma_dom(k);
            }
        }
        let variables = match &self.midi_mapping {
            Some(m) => Some(m.variables().snapshot()),
            None => None,
        };
        SketchMidiState { input_connections: names, variables }
    }
}

} // verus!
