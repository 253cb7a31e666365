use vstd::prelude::*;

use crate::midi::config::{names_distinct, MidiMappingConfig, MidiVariableConfig};
use crate::midi::control::MidiControl;
use crate::midi::encoder::{EncoderState, MidiEncoder};
use crate::midi::message::MidiMessage;
use crate::midi::note::{MidiNote, NoteState};
use crate::midi::variables::{MidiVariables, VariablesView};
use crate::name_map::{lemma_push_contains, NameMap};

verus! {

/// A route as a plain value: MIDI channel, controller or key number, and the
/// name of the variable it drives.
pub open spec fn route_view(r: (u8, u8, String)) -> (u8, u8, Seq<char>) {
    (r.0, r.1, r.2@)
}

/// The names that `routes` binds to `channel` and `number`, in table order.
pub open spec fn routed_names(routes: Seq<(u8, u8, Seq<char>)>, channel: u8, number: u8) -> Seq<Seq<char>>
    decreases routes.len(),
{
    if routes.len() == 0 {
        Seq::empty()
    } else {
        let prev = routed_names(routes.drop_last(), channel, number);
        let r = routes.last();
        if r.0 == channel && r.1 == number {
            prev.push(r.2)
        } else {
            prev
        }
    }
}

/// What a mapping announces when a variable changes; values are raw 7-bit
/// values (a subscriber reads them divided by 127).
#[derive(Clone, Copy, PartialEq, Eq, Debug)]
pub enum MidiMappingEvent {
    ControllerChanged(u8),
    EncoderIncrement,
    EncoderDecrement,
    NoteOn(u8),
    NoteOff(u8),
}

pub open spec fn events_view(events: Seq<(String, MidiMappingEvent)>) -> Seq<(Seq<char>, MidiMappingEvent)> {
    events.map_values(|e: (String, MidiMappingEvent)| (e.0@, e.1))
}

/// Each name paired with the same event.
pub open spec fn tagged(names: Seq<Seq<char>>, event: MidiMappingEvent) -> Seq<(Seq<char>, MidiMappingEvent)> {
    names.map_values(|k: Seq<char>| (k, event))
}

/// The event an encoder in this state announces, if it was turned.
pub open spec fn encoder_event(s: EncoderState) -> Option<MidiMappingEvent> {
    if s.is_increment {
        Some(MidiMappingEvent::EncoderIncrement)
    } else if s.is_decrement {
        Some(MidiMappingEvent::EncoderDecrement)
    } else {
        None
    }
}

/// The events of the encoders `names`, in order, read from `states`.
pub open spec fn encoder_events(names: Seq<Seq<char>>, states: Map<Seq<char>, EncoderState>) -> Seq<(Seq<char>, MidiMappingEvent)>
    decreases names.len(),
{
    if names.len() == 0 {
        Seq::empty()
    } else {
        let prev = encoder_events(names.drop_last(), states);
        match encoder_event(states[names.last()]) {
            Some(e) => prev.push((names.last(), e)),
            None => prev,
        }
    }
}

/// Controllers after the ones named in `names` received `value`.
pub open spec fn set_controls(m: Map<Seq<char>, u8>, names: Seq<Seq<char>>, value: u8) -> Map<Seq<char>, u8> {
    Map::new(|k: Seq<char>| m.contains_key(k), |k: Seq<char>| if names.contains(k) { value } else { m[k] })
}

/// Encoders after the ones named in `names` received `value`.
pub open spec fn turn_encoders(m: Map<Seq<char>, EncoderState>, names: Seq<Seq<char>>, value: u8) -> Map<Seq<char>, EncoderState> {
    Map::new(
        |k: Seq<char>| m.contains_key(k),
        |k: Seq<char>| if names.contains(k) { m[k].after_change(value) } else { m[k] },
    )
}

/// Keys after the ones named in `names` were pressed (`on`) or released.
pub open spec fn play_notes(m: Map<Seq<char>, NoteState>, names: Seq<Seq<char>>, on: bool, velocity: u8) -> Map<Seq<char>, NoteState> {
    Map::new(
        |k: Seq<char>| m.contains_key(k),
        |k: Seq<char>|
            if names.contains(k) {
                if on { m[k].after_on(velocity) } else { m[k].after_off(velocity) }
            } else {
                m[k]
            },
    )
}

/// A mapping as plain values: three routing tables, one per kind of
/// variable, and the variables themselves.
pub struct MappingView {
    pub control_routes: Seq<(u8, u8, Seq<char>)>,
    pub encoder_routes: Seq<(u8, u8, Seq<char>)>,
    pub note_routes: Seq<(u8, u8, Seq<char>)>,
    pub variables: VariablesView,
}

/// The effect of a controller message on channel `channel`, controller
/// `number`, with `value`: every controller routed there takes the value,
/// every encoder routed there registers a turn, nothing else changes; the
/// events are one `ControllerChanged` per routed controller, then one per
/// routed encoder that is flagged as turned.
pub open spec fn controller_changed_spec(
    pre: MappingView,
    post: MappingView,
    channel: u8,
    number: u8,
    value: u8,
    events: Seq<(Seq<char>, MidiMappingEvent)>,
) -> bool {
    let controls = routed_names(pre.control_routes, channel, number);
    let encoders = routed_names(pre.encoder_routes, channel, number);
    &&& post.control_routes == pre.control_routes
    &&& post.encoder_routes == pre.encoder_routes
    &&& post.note_routes == pre.note_routes
    &&& post.variables.controls == set_controls(pre.variables.controls, controls, value)
    &&& post.variables.encoders == turn_encoders(pre.variables.encoders, encoders, value)
    &&& post.variables.notes == pre.variables.notes
    &&& events == tagged(controls, MidiMappingEvent::ControllerChanged(value)) + encoder_events(encoders, post.variables.encoders)
}

/// The effect of a note-on (`on`) or note-off on channel `channel`, key
/// `number`, with `velocity`: every key routed there changes, nothing else
/// does; one event per routed key.
pub open spec fn note_spec(
    pre: MappingView,
    post: MappingView,
    channel: u8,
    number: u8,
    on: bool,
    velocity: u8,
    events: Seq<(Seq<char>, MidiMappingEvent)>,
) -> bool {
    let notes = routed_names(pre.note_routes, channel, number);
    &&& post.control_routes == pre.control_routes
    &&& post.encoder_routes == pre.encoder_routes
    &&& post.note_routes == pre.note_routes
    &&& post.variables.controls == pre.variables.controls
    &&& post.variables.encoders == pre.variables.encoders
    &&& post.variables.notes == play_notes(pre.variables.notes, notes, on, velocity)
    &&& events == tagged(
        notes,
        if on { MidiMappingEvent::NoteOn(velocity) } else { MidiMappingEvent::NoteOff(velocity) },
    )
}

/// The effect of one incoming channel message: note-off, note-on and
/// controller messages go to the variables routed to them; other kinds
/// change nothing and announce nothing.
pub open spec fn process_message_spec(
    pre: MappingView,
    post: MappingView,
    channel: u8,
    message: MidiMessage,
    events: Seq<(Seq<char>, MidiMappingEvent)>,
) -> bool {
    match message {
        MidiMessage::NoteOff { key, vel } => note_spec(pre, post, channel, key, false, vel, events),
        MidiMessage::NoteOn { key, vel } => note_spec(pre, post, channel, key, true, vel, events),
        MidiMessage::Controller { controller, value } => controller_changed_spec(pre, post, channel, controller, value, events),
        MidiMessage::Other => post == pre && events.len() == 0,
    }
}

/// The routes that a configuration declares for one kind of variable, in
/// configuration order.
pub open spec fn config_routes(config: Seq<(String, MidiVariableConfig)>, kind: int) -> Seq<(u8, u8, Seq<char>)>
    decreases config.len(),
{
    if config.len() == 0 {
        Seq::empty()
    } else {
        let prev = config_routes(config.drop_last(), kind);
        let name = config.last().0@;
        match config.last().1 {
            MidiVariableConfig::Control { channel, number, .. } => if kind == 0 { prev.push((channel, number, name)) } else { prev },
            MidiVariableConfig::Encoder { channel, number, .. } => if kind == 1 { prev.push((channel, number, name)) } else { prev },
            MidiVariableConfig::Note { channel, number } => if kind == 2 { prev.push((channel, number, name)) } else { prev },
        }
    }
}

/// The controllers a configuration declares, with their starting values.
pub open spec fn config_controls(config: Seq<(String, MidiVariableConfig)>) -> Map<Seq<char>, u8>
    decreases config.len(),
{
    if config.len() == 0 {
        Map::empty()
    } else {
        let prev = config_controls(config.drop_last());
        match config.last().1 {
            MidiVariableConfig::Control { default_value, .. } => prev.insert(
                config.last().0@,
                match default_value {
                    Some(v) => v,
                    None => 0u8,
                },
            ),
            _ => prev,
        }
    }
}

/// The encoders a configuration declares, each unturned.
pub open spec fn config_encoders(config: Seq<(String, MidiVariableConfig)>) -> Map<Seq<char>, EncoderState>
    decreases config.len(),
{
    if config.len() == 0 {
        Map::empty()
    } else {
        let prev = config_encoders(config.drop_last());
        match config.last().1 {
            MidiVariableConfig::Encoder { mode, .. } => prev.insert(
                config.last().0@,
                EncoderState { mode, is_increment: false, is_decrement: false },
            ),
            _ => prev,
        }
    }
}

/// The keys a configuration declares, each released with velocity 0.
pub open spec fn config_notes(config: Seq<(String, MidiVariableConfig)>) -> Map<Seq<char>, NoteState>
    decreases config.len(),
{
    if config.len() == 0 {
        Map::empty()
    } else {
        let prev = config_notes(config.drop_last());
        match config.last().1 {
            MidiVariableConfig::Note { .. } => prev.insert(
                config.last().0@,
                NoteState { is_on: false, is_off: false, is_down: false, velocity: 0 },
            ),
            _ => prev,
        }
    }
}

proof fn lemma_routed_step(routes: Seq<(u8, u8, Seq<char>)>, i: int, channel: u8, number: u8)
    requires
        0 <= i < routes.len(),
    ensures
        routed_names(routes.take(i + 1), channel, number) == (if routes[i].0 == channel && routes[i].1 == number {
            routed_names(routes.take(i), channel, number).push(routes[i].2)
        } else {
            routed_names(routes.take(i), channel, number)
        }),
{
    assert(routes.take(i + 1).drop_last() =~= routes.take(i));
}

proof fn lemma_encoder_events_agree(names: Seq<Seq<char>>, m1: Map<Seq<char>, EncoderState>, m2: Map<Seq<char>, EncoderState>)
    requires
        forall|k: Seq<char>| names.contains(k) ==> m1[k] == m2[k],
    ensures
        encoder_events(names, m1) == encoder_events(names, m2),
    decreases names.len(),
{
    if names.len() > 0 {
        let p = names.drop_last();
        assert forall|k: Seq<char>| p.contains(k) implies m1[k] == m2[k] by {
            let j = choose|j: int| 0 <= j < p.len() && p[j] == k;
            assert(names[j] == k);
        }
        lemma_encoder_events_agree(p, m1, m2);
        assert(names.contains(names.last())) by {
            assert(names[names.len() - 1] == names.last());
        }
    }
}

/// Every route names a variable of its own kind.
pub open spec fn routes_resolve(v: MappingView) -> bool {
    &&& forall|i: int| 0 <= i < v.control_routes.len() ==> v.variables.controls.contains_key(#[trigger] v.control_routes[i].2)
    &&& forall|i: int| 0 <= i < v.encoder_routes.len() ==> v.variables.encoders.contains_key(#[trigger] v.encoder_routes[i].2)
    &&& forall|i: int| 0 <= i < v.note_routes.len() ==> v.variables.notes.contains_key(#[trigger] v.note_routes[i].2)
}

/// Routes keep resolving whatever message arrives: a message changes
/// variables' states, never which variables exist or how they are routed.
pub proof fn law_messages_keep_routes_resolving(
    pre: MappingView,
    post: MappingView,
    channel: u8,
    message: MidiMessage,
    events: Seq<(Seq<char>, MidiMappingEvent)>,
)
    requires
        routes_resolve(pre),
        process_message_spec(pre, post, channel, message, events),
    ensures
        routes_resolve(post),
{
}

/// A message on a channel and number that no variable is routed to changes
/// nothing and announces nothing.
pub proof fn law_unrouted_message_is_ignored(
    pre: MappingView,
    post: MappingView,
    channel: u8,
    message: MidiMessage,
    events: Seq<(Seq<char>, MidiMappingEvent)>,
)
    requires
        process_message_spec(pre, post, channel, message, events),
        match message {
            MidiMessage::NoteOff { key, .. } => routed_names(pre.note_routes, channel, key).len() == 0,
            MidiMessage::NoteOn { key, .. } => routed_names(pre.note_routes, channel, key).len() == 0,
            MidiMessage::Controller { controller, .. } =>
                routed_names(pre.control_routes, channel, controller).len() == 0
                && routed_names(pre.encoder_routes, channel, controller).len() == 0,
            MidiMessage::Other => true,
        },
    ensures
        post == pre,
        events.len() == 0,
{
    match message {
        MidiMessage::NoteOff { key, vel } => {
            let names = routed_names(pre.note_routes, channel, key);
            assert(post.variables.notes =~= pre.variables.notes);
            assert(post.variables =~= pre.variables);
            assert(tagged(names, MidiMappingEvent::NoteOff(vel)) =~= Seq::<(Seq<char>, MidiMappingEvent)>::empty());
        },
        MidiMessage::NoteOn { key, vel } => {
            let names = routed_names(pre.note_routes, channel, key);
            assert(post.variables.notes =~= pre.variables.notes);
            assert(post.variables =~= pre.variables);
            assert(tagged(names, MidiMappingEvent::NoteOn(vel)) =~= Seq::<(Seq<char>, MidiMappingEvent)>::empty());
        },
        MidiMessage::Controller { controller, value } => {
            let cn = routed_names(pre.control_routes, channel, controller);
            let en = routed_names(pre.encoder_routes, channel, controller);
            assert(post.variables.controls =~= pre.variables.controls);
            assert(post.variables.encoders =~= pre.variables.encoders);
            assert(post.variables =~= pre.variables);
            assert(tagged(cn, MidiMappingEvent::ControllerChanged(value)) =~= Seq::<(Seq<char>, MidiMappingEvent)>::empty());
            assert(encoder_events(en, post.variables.encoders) =~= Seq::<(Seq<char>, MidiMappingEvent)>::empty());
        },
        MidiMessage::Other => {},
    }
}

/// A controller keeps the last value it received across the end of a
/// sketch update, and a key stays held.
pub proof fn law_update_keeps_values(pre: MappingView, post: MappingView, name: Seq<char>)
    requires
        post.variables.controls == pre.variables.controls,
        post.variables.notes == pre.variables.notes.map_values(|s: NoteState| s.after_sketch_update()),
        pre.variables.notes.contains_key(name),
    ensures
        post.variables.notes[name].is_down == pre.variables.notes[name].is_down,
        post.variables.notes[name].velocity == pre.variables.notes[name].velocity,
        !post.variables.notes[name].is_on,
        !post.variables.notes[name].is_off,
{
}

/// A MIDI mapping: which channel and controller or key drives which named
/// variable, and the current state of those variables.
pub struct MidiMapping {
    control_routes: Vec<(u8, u8, String)>,
    encoder_routes: Vec<(u8, u8, String)>,
    note_routes: Vec<(u8, u8, String)>,
    variables: MidiVariables,
}

impl View for MidiMapping {
    type V = MappingView;

    closed spec fn view(&self) -> MappingView {
        MappingView {
            control_routes: self.control_routes@.map_values(|r: (u8, u8, String)| route_view(r)),
            encoder_routes: self.encoder_routes@.map_values(|r: (u8, u8, String)| route_view(r)),
            note_routes: self.note_routes@.map_values(|r: (u8, u8, String)| route_view(r)),
            variables: self.variables@,
        }
    }
}

impl MidiMapping {
    /// Every route names a variable of its own kind.
    pub closed spec fn wf(&self) -> bool {
        &&& self.variables.wf()
        &&& routes_resolve(self@)
    }

    /// In a well-formed mapping every route leads to a variable of its kind.
    pub proof fn law_well_formed_routes_resolve(&self)
        requires
            self.wf(),
        ensures
            routes_resolve(self@),
    {
    }

    /// The variables, as a sketch reads them.
    pub fn variables(&self) -> (r: &MidiVariables)
        requires
            self.wf(),
        ensures
            r.wf(),
            r@ == self@.variables,
    {
        &self.variables
    }

    /// Builds the mapping that a configuration describes: one variable per
    /// entry, in its starting state, and one route per entry.
    pub fn from_config(config: MidiMappingConfig) -> (m: Self)
        requires
            names_distinct(config@),
        ensures
            m.wf(),
            routes_resolve(m@),
            m@.control_routes == config_routes(config@, 0),
            m@.encoder_routes == config_routes(config@, 1),
            m@.note_routes == config_routes(config@, 2),
            m@.variables.controls == config_controls(config@),
            m@.variables.encoders == config_encoders(config@),
            m@.variables.notes == config_notes(config@),
    {
        let mut m = MidiMapping {
            control_routes: Vec::new(),
            encoder_routes: Vec::new(),
            note_routes: Vec::new(),
            variables: MidiVariables::new(),
        };
        proof {
            m.variables.lemma_view();
            assert(m@.control_routes =~= config_routes(config@.take(0), 0));
            assert(m@.encoder_routes =~= config_routes(config@.take(0), 1));
            assert(m@.note_routes =~= config_routes(config@.take(0), 2));
            assert(config@.take(0) =~= Seq::<(String, MidiVariableConfig)>::empty());
        }
        let mut i: usize = 0;
        while i < config.len()
            invariant
                i <= config@.len(),
                m.wf(),
                m@.control_routes == config_routes(config@.take(i as int), 0),
                m@.encoder_routes == config_routes(config@.take(i as int), 1),
                m@.note_routes == config_routes(config@.take(i as int), 2),
                m@.variables.controls == config_controls(config@.take(i as int)),
                m@.variables.encoders == config_encoders(config@.take(i as int)),
                m@.variables.notes == config_notes(config@.take(i as int)),
            decreases config@.len() - i,
        {
            let ghost pre = m@;
            let ghost t1 = config@.take(i + 1);
            proof {
                assert(t1.drop_last() =~= config@.take(i as int));
                assert(t1.last() == config@[i as int]);
                m.variables.lemma_view();
                m.variables.lemma_wf();
            }
            let name = &config[i].0;
            match config[i].1 {
                MidiVariableConfig::Control { channel, number, default_value } => {
                    m.control_routes.push((channel, number, name.clone()));
                    m.variables.controls.insert(name.clone(), MidiControl::new(default_value));
                    proof {
                        m.variables.lemma_view();
                        assert(m@.control_routes =~= pre.control_routes.push((channel, number, name@)));
                        assert(m@.variables.controls =~= pre.variables.controls.insert(
                            name@,
                            match default_value {
                                Some(v) => v,
                                None => 0u8,
                            },
                        ));
                        assert(m@.encoder_routes =~= pre.encoder_routes);
                        assert(m@.note_routes =~= pre.note_routes);
                    }
                },
                MidiVariableConfig::Encoder { channel, number, mode } => {
                    m.encoder_routes.push((channel, number, name.clone()));
                    m.variables.encoders.insert(name.clone(), MidiEncoder::new(mode));
                    proof {
                        m.variables.lemma_view();
                        assert(m@.encoder_routes =~= pre.encoder_routes.push((channel, number, name@)));
                        assert(m@.variables.encoders =~= pre.variables.encoders.insert(
                            name@,
                            EncoderState { mode, is_increment: false, is_decrement: false },
                        ));
                        assert(m@.control_routes =~= pre.control_routes);
                        assert(m@.note_routes =~= pre.note_routes);
                    }
                },
                MidiVariableConfig::Note { channel, number } => {
                    m.note_routes.push((channel, number, name.clone()));
                    m.variables.notes.insert(name.clone(), MidiNote::new());
                    proof {
                        m.variables.lemma_view();
                        assert(m@.note_routes =~= pre.note_routes.push((channel, number, name@)));
                        assert(m@.variables.notes =~= pre.variables.notes.insert(
                            name@,
                            NoteState { is_on: false, is_off: false, is_down: false, velocity: 0 },
                        ));
                        assert(m@.control_routes =~= pre.control_routes);
                        assert(m@.encoder_routes =~= pre.encoder_routes);
                    }
                },
            }
            proof {
                m.variables.lemma_view();
                m.variables.lemma_wf();
                assert forall|j: int| 0 <= j < m@.control_routes.len() implies m@.variables.controls.contains_key(
                    #[trigger] m@.control_routes[j].2) by {
                    if j < pre.control_routes.len() {
                        assert(m@.control_routes[j] == pre.control_routes[j]);
                    }
                }
                assert forall|j: int| 0 <= j < m@.encoder_routes.len() implies m@.variables.encoders.contains_key(
                    #[trigger] m@.encoder_routes[j].2) by {
                    if j < pre.encoder_routes.len() {
                        assert(m@.encoder_routes[j] == pre.encoder_routes[j]);
                    }
                }
                assert forall|j: int| 0 <= j < m@.note_routes.len() implies m@.variables.notes.contains_key(
                    #[trigger] m@.note_routes[j].2) by {
                    if j < pre.note_routes.len() {
                        assert(m@.note_routes[j] == pre.note_routes[j]);
                    }
                }
            }
            i = i + 1;
        }
        proof {
            assert(config@.take(config@.len() as int) =~= config@);
        }
        m
    }
    /// A controller message on channel `channel`, controller `number`, with
    /// `value`. Returns the events to announce to subscribers.
    pub fn controller_changed(&mut self, channel: u8, number: u8, value: u8) -> (events: Vec<(String, MidiMappingEvent)>)
        requires
            old(self).wf(),
        ensures
            final(self).wf(),
            controller_changed_spec(old(self)@, final(self)@, channel, number, value, events_view(events@)),
    {
        let ghost pre = self@;
        let ghost croutes = self@.control_routes;
        let ghost eroutes = self@.encoder_routes;
        let ghost cnames = routed_names(croutes, channel, number);
        let mut events: Vec<(String, MidiMappingEvent)> = Vec::new();
        proof {
            assert(croutes.take(0) =~= Seq::<(u8, u8, Seq<char>)>::empty());
            assert(eroutes.take(0) =~= Seq::<(u8, u8, Seq<char>)>::empty());
            assert(events_view(events@) =~= tagged(Seq::<Seq<char>>::empty(), MidiMappingEvent::ControllerChanged(value)));
            assert(set_controls(pre.variables.controls, Seq::<Seq<char>>::empty(), value) =~= pre.variables.controls);
        }
        let mut i: usize = 0;
        while i < self.control_routes.len()
            invariant
                self.wf(),
                i <= croutes.len(),
                self@.control_routes == croutes,
                self@.encoder_routes == eroutes,
                self@.note_routes == pre.note_routes,
                self@.variables.controls == set_controls(pre.variables.controls, routed_names(croutes.take(i as int), channel, number), value),
                self@.variables.encoders == pre.variables.encoders,
                self@.variables.notes == pre.variables.notes,
                events_view(events@) == tagged(routed_names(croutes.take(i as int), channel, number), MidiMappingEvent::ControllerChanged(value)),
            decreases croutes.len() - i,
        {
            let ghost names = routed_names(croutes.take(i as int), channel, number);
            let ghost cur = self@.variables.controls;
            proof {
                lemma_routed_step(croutes, i as int, channel, number);
                self.variables.lemma_view();
                self.variables.lemma_wf();
                assert(croutes[i as int] == route_view(self.control_routes@[i as int]));
            }
            if self.control_routes[i].0 == channel && self.control_routes[i].1 == number {
                let ghost k = croutes[i as int].2;
                proof {
                    assert(pre.variables.controls.contains_key(k));
                }
                match self.variables.controls.find(self.control_routes[i].2.as_str()) {
                    Some(p) => {
                        let mut c = *self.variables.controls.value_at(p);
                        c.changed(value);
                        self.variables.controls.set_at(p, c);
                        let nm = self.control_routes[i].2.clone();
                        let ghost ev_before = events@;
                        events.push((nm, MidiMappingEvent::ControllerChanged(value)));
                        proof {
                            assert(nm@ == k);
                            assert(events@ == ev_before.push((nm, MidiMappingEvent::ControllerChanged(value))));
                            assert(events_view(events@) =~= events_view(ev_before).push((k, MidiMappingEvent::ControllerChanged(value))));
                            self.variables.lemma_view();
                            self.variables.lemma_wf();
                            assert(self@.variables.controls =~= cur.insert(k, value));
                            assert forall|q: Seq<char>| #[trigger] names.push(k).contains(q) <==> (names.contains(q) || q == k) by {
                                lemma_push_contains(names, k, q);
                            }
                            assert(set_controls(pre.variables.controls, names.push(k), value) =~= cur.insert(k, value));
                            assert(events_view(events@) =~= tagged(names.push(k), MidiMappingEvent::ControllerChanged(value)));
                        }
                    },
                    None => {},
                }
            }
            i = i + 1;
        }
        proof {
            assert(croutes.take(croutes.len() as int) =~= croutes);
            assert(encoder_events(Seq::<Seq<char>>::empty(), self@.variables.encoders) =~= Seq::<(Seq<char>, MidiMappingEvent)>::empty());
            assert(events_view(events@) =~= tagged(cnames, MidiMappingEvent::ControllerChanged(value)) + encoder_events(Seq::<Seq<char>>::empty(), self@.variables.encoders));
            assert(turn_encoders(pre.variables.encoders, Seq::<Seq<char>>::empty(), value) =~= pre.variables.encoders);
        }
        let ghost ctrls = self@.variables.controls;
        let mut j: usize = 0;
        while j < self.encoder_routes.len()
            invariant
                self.wf(),
                j <= eroutes.len(),
                self@.control_routes == croutes,
                self@.encoder_routes == eroutes,
                self@.note_routes == pre.note_routes,
                self@.variables.controls == ctrls,
                self@.variables.encoders == turn_encoders(pre.variables.encoders, routed_names(eroutes.take(j as int), channel, number), value),
                self@.variables.notes == pre.variables.notes,
                events_view(events@) == tagged(cnames, MidiMappingEvent::ControllerChanged(value))
                    + encoder_events(routed_names(eroutes.take(j as int), channel, number), self@.variables.encoders),
            decreases eroutes.len() - j,
        {
            let ghost names = routed_names(eroutes.take(j as int), channel, number);
            let ghost cur = self@.variables.encoders;
            let ghost ev0 = events_view(events@);
            proof {
                lemma_routed_step(eroutes, j as int, channel, number);
                self.variables.lemma_view();
                self.variables.lemma_wf();
                assert(eroutes[j as int] == route_view(self.encoder_routes@[j as int]));
            }
            if self.encoder_routes[j].0 == channel && self.encoder_routes[j].1 == number {
                let ghost k = eroutes[j as int].2;
                proof {
                    assert(pre.variables.encoders.contains_key(k));
                }
                match self.variables.encoders.find(self.encoder_routes[j].2.as_str()) {
                    Some(p) => {
                        let mut e = *self.variables.encoders.value_at(p);
                        e.changed(value);
                        self.variables.encoders.set_at(p, e);
                        if e.is_increment() {
                            events.push((self.encoder_routes[j].2.clone(), MidiMappingEvent::EncoderIncrement));
                        } else if e.is_decrement() {
                            events.push((self.encoder_routes[j].2.clone(), MidiMappingEvent::EncoderDecrement));
                        }
                        proof {
                            self.variables.lemma_view();
                            self.variables.lemma_wf();
                            let s = cur[k].after_change(value);
                            assert(e@ == s);
                            pre.variables.encoders[k].lemma_after_change_idempotent(value);
                            assert(self@.variables.encoders =~= cur.insert(k, s));
                            assert forall|q: Seq<char>| #[trigger] names.push(k).contains(q) <==> (names.contains(q) || q == k) by {
                                lemma_push_contains(names, k, q);
                            }
                            assert(s == pre.variables.encoders[k].after_change(value));
                            let newm = self@.variables.encoders;
                            assert(turn_encoders(pre.variables.encoders, names.push(k), value) =~= newm);
                            assert forall|q: Seq<char>| #[trigger] names.contains(q) implies cur[q] == newm[q] by {}
                            lemma_encoder_events_agree(names, cur, newm);
                            assert(names.push(k).drop_last() =~= names);
                            assert(names.push(k).last() == k);
                            let tc = tagged(cnames, MidiMappingEvent::ControllerChanged(value));
                            match encoder_event(s) {
                                Some(ev) => {
                                    assert(events_view(events@) =~= ev0.push((k, ev)));
                                    assert(tc + encoder_events(names.push(k), newm) =~= (tc + encoder_events(names, cur)).push((k, ev)));
                                },
                                None => {
                                    assert(events_view(events@) =~= ev0);
                                },
                            }
                        }
                    },
                    None => {},
                }
            }
            j = j + 1;
        }
        proof {
            assert(eroutes.take(eroutes.len() as int) =~= eroutes);
            self.variables.lemma_view();
        }
        events
    }

    /// Shared body of `note_on` and `note_off`.
    fn play(&mut self, channel: u8, number: u8, on: bool, velocity: u8) -> (events: Vec<(String, MidiMappingEvent)>)
        requires
            old(self).wf(),
        ensures
            final(self).wf(),
            note_spec(old(self)@, final(self)@, channel, number, on, velocity, events_view(events@)),
    {
        let ghost pre = self@;
        let ghost routes = self@.note_routes;
        let ghost event = if on { MidiMappingEvent::NoteOn(velocity) } else { MidiMappingEvent::NoteOff(velocity) };
        let mut events: Vec<(String, MidiMappingEvent)> = Vec::new();
        proof {
            assert(routes.take(0) =~= Seq::<(u8, u8, Seq<char>)>::empty());
            assert(events_view(events@) =~= tagged(Seq::<Seq<char>>::empty(), event));
            assert(play_notes(pre.variables.notes, Seq::<Seq<char>>::empty(), on, velocity) =~= pre.variables.notes);
        }
        let mut i: usize = 0;
        while i < self.note_routes.len()
            invariant
                self.wf(),
                i <= routes.len(),
                event == (if on { MidiMappingEvent::NoteOn(velocity) } else { MidiMappingEvent::NoteOff(velocity) }),
                self@.control_routes == pre.control_routes,
                self@.encoder_routes == pre.encoder_routes,
                self@.note_routes == routes,
                self@.variables.controls == pre.variables.controls,
                self@.variables.encoders == pre.variables.encoders,
                self@.variables.notes == play_notes(pre.variables.notes, routed_names(routes.take(i as int), channel, number), on, velocity),
                events_view(events@) == tagged(routed_names(routes.take(i as int), channel, number), event),
            decreases routes.len() - i,
        {
            let ghost names = routed_names(routes.take(i as int), channel, number);
            let ghost cur = self@.variables.notes;
            proof {
                lemma_routed_step(routes, i as int, channel, number);
                self.variables.lemma_view();
                self.variables.lemma_wf();
                assert(routes[i as int] == route_view(self.note_routes@[i as int]));
            }
            if self.note_routes[i].0 == channel && self.note_routes[i].1 == number {
                let ghost k = routes[i as int].2;
                proof {
                    assert(pre.variables.notes.contains_key(k));
                }
                match self.variables.notes.find(self.note_routes[i].2.as_str()) {
                    Some(p) => {
                        let mut n = *self.variables.notes.value_at(p);
                        let nm = self.note_routes[i].2.clone();
                        let ghost ev_before = events@;
                        if on {
                            n.on(velocity);
                            events.push((nm, MidiMappingEvent::NoteOn(velocity)));
                        } else {
                            n.off(velocity);
                            events.push((nm, MidiMappingEvent::NoteOff(velocity)));
                        }
                        self.variables.notes.set_at(p, n);
                        proof {
                            assert(nm@ == k);
                            assert(events@ == ev_before.push((nm, event)));
                            assert(events_view(events@) =~= events_view(ev_before).push((k, event)));
                            self.variables.lemma_view();
                            self.variables.lemma_wf();
                            let s0 = pre.variables.notes[k];
                            let s = if on { s0.after_on(velocity) } else { s0.after_off(velocity) };
                            assert(n@ == (if on { cur[k].after_on(velocity) } else { cur[k].after_off(velocity) }));
                            assert(n@ == s);
                            assert(self@.variables.notes =~= cur.insert(k, s));
                            assert forall|q: Seq<char>| #[trigger] names.push(k).contains(q) <==> (names.contains(q) || q == k) by {
                                lemma_push_contains(names, k, q);
                            }
                            assert(play_notes(pre.variables.notes, names.push(k), on, velocity) =~= cur.insert(k, s));
                            assert(events_view(events@) =~= tagged(names.push(k), event));
                        }
                    },
                    None => {},
                }
            }
            i = i + 1;
        }
        proof {
            assert(routes.take(routes.len() as int) =~= routes);
        }
        events
    }

    /// A note-on on channel `channel`, key `number`, with `velocity`.
    pub fn note_on(&mut self, channel: u8, number: u8, velocity: u8) -> (events: Vec<(String, MidiMappingEvent)>)
        requires
            old(self).wf(),
        ensures
            final(self).wf(),
            note_spec(old(self)@, final(self)@, channel, number, true, velocity, events_view(events@)),
    {
        self.play(channel, number, true, velocity)
    }

    /// A note-off on channel `channel`, key `number`, with `velocity`.
    pub fn note_off(&mut self, channel: u8, number: u8, velocity: u8) -> (events: Vec<(String, MidiMappingEvent)>)
        requires
            old(self).wf(),
        ensures
            final(self).wf(),
            note_spec(old(self)@, final(self)@, channel, number, false, velocity, events_view(events@)),
    {
        self.play(channel, number, false, velocity)
    }

    /// Hands one incoming channel message to the variables it is routed to:
    /// note-off, note-on and controller messages; other kinds change nothing.
    pub fn process_message(&mut self, channel: u8, message: MidiMessage) -> (events: Vec<(String, MidiMappingEvent)>)
        requires
            old(self).wf(),
        ensures
            final(self).wf(),
            process_message_spec(old(self)@, final(self)@, channel, message, events_view(events@)),
    {
        match message {
            MidiMessage::NoteOff { key, vel } => self.note_off(channel, key, vel),
            MidiMessage::NoteOn { key, vel } => self.note_on(channel, key, vel),
            MidiMessage::Controller { controller, value } => self.controller_changed(channel, controller, value),
            MidiMessage::Other => Vec::new(),
        }
    }

    /// Ends a sketch update: clears the one-update flags of every encoder
    /// and key; controller values, held keys and velocities stay.
    pub fn after_sketch_update(&mut self)
        requires
            old(self).wf(),
        ensures
            final(self).wf(),
            final(self)@.control_routes == old(self)@.control_routes,
            final(self)@.encoder_routes == old(self)@.encoder_routes,
            final(self)@.note_routes == old(self)@.note_routes,
            final(self)@.variables.controls == old(self)@.variables.controls,
            final(self)@.variables.encoders == old(self)@.variables.encoders.map_values(|s: EncoderState| s.after_sketch_update()),
            final(self)@.variables.notes == old(self)@.variables.notes.map_values(|s: NoteState| s.after_sketch_update()),
    {
        let ghost pre = self@;
        proof {
            self.variables.lemma_view();
            self.variables.lemma_wf();
        }
        let ghost ens = self.variables.encoders.names_seq();
        let n = self.variables.encoders.len();
        let mut i: usize = 0;
        proof {
            assert(ens.take(0) =~= Seq::<Seq<char>>::empty());
            assert(self@.variables.encoders =~= Map::new(
                |k: Seq<char>| pre.variables.encoders.contains_key(k),
                |k: Seq<char>| if ens.take(0).contains(k) { pre.variables.encoders[k].after_sketch_update() } else { pre.variables.encoders[k] },
            ));
        }
        while i < n
            invariant
                self.wf(),
                n == ens.len(),
                i <= n,
                self.variables.encoders.names_seq() == ens,
                self@.control_routes == pre.control_routes,
                self@.encoder_routes == pre.encoder_routes,
                self@.note_routes == pre.note_routes,
                self@.variables.controls == pre.variables.controls,
                self@.variables.notes == pre.variables.notes,
                self@.variables.encoders == Map::new(
                    |k: Seq<char>| pre.variables.encoders.contains_key(k),
                    |k: Seq<char>| if ens.take(i as int).contains(k) { pre.variables.encoders[k].after_sketch_update() } else { pre.variables.encoders[k] },
                ),
            decreases n - i,
        {
            let ghost cur = self@.variables.encoders;
            proof {
                self.variables.lemma_view();
                self.variables.lemma_wf();
            }
            proof {
                self.variables.encoders.lemma_entry(i as int);
            }
            let mut e = *self.variables.encoders.value_at(i);
            e.after_sketch_update();
            self.variables.encoders.set_at(i, e);
            proof {
                self.variables.lemma_view();
                self.variables.lemma_wf();
                let k = ens[i as int];
                assert(self@.variables.encoders =~= cur.insert(k, e@));
                assert forall|q: Seq<char>| #[trigger] ens.take(i + 1).contains(q) <==> (ens.take(i as int).contains(q) || q == k) by {
                    assert(ens.take(i + 1) =~= ens.take(i as int).push(k));
                    lemma_push_contains(ens.take(i as int), k, q);
                }
                let target = Map::new(
                    |q: Seq<char>| pre.variables.encoders.contains_key(q),
                    |q: Seq<char>| if ens.take(i + 1).contains(q) { pre.variables.encoders[q].after_sketch_update() } else { pre.variables.encoders[q] },
                );
                assert(cur.contains_key(k));
                assert(e@ == cur[k].after_sketch_update());
                assert forall|q: Seq<char>| #[trigger] target.contains_key(q) implies self@.variables.encoders[q] == target[q] by {
                    if q == k {
                        assert(ens.take(i + 1).contains(k));
                    } else {
                        assert(ens.take(i + 1).contains(q) == ens.take(i as int).contains(q));
                    }
                }
                assert(self@.variables.encoders =~= target);
            }
            i = i + 1;
        }
        proof {
            self.variables.lemma_view();
            self.variables.lemma_wf();
            assert(ens.take(n as int) =~= ens);
            assert forall|q: Seq<char>| pre.variables.encoders.contains_key(q) implies ens.contains(q) by {
                self.variables.encoders.lemma_dom(q);
            }
            assert(self@.variables.encoders =~= pre.variables.encoders.map_values(|s: EncoderState| s.after_sketch_update()));
        }
        let ghost nns = self.variables.notes.names_seq();
        let ghost mid = self@;
        let m = self.variables.notes.len();
        let mut j: usize = 0;
        proof {
            assert(nns.take(0) =~= Seq::<Seq<char>>::empty());
            assert(self@.variables.notes =~= Map::new(
                |k: Seq<char>| pre.variables.notes.contains_key(k),
                |k: Seq<char>| if nns.take(0).contains(k) { pre.variables.notes[k].after_sketch_update() } else { pre.variables.notes[k] },
            ));
        }
        while j < m
            invariant
                self.wf(),
                m == nns.len(),
                j <= m,
                self.variables.notes.names_seq() == nns,
                self@.control_routes == pre.control_routes,
                self@.encoder_routes == pre.encoder_routes,
                self@.note_routes == pre.note_routes,
                self@.variables.controls == pre.variables.controls,
                self@.variables.encoders == mid.variables.encoders,
                self@.variables.notes == Map::new(
                    |k: Seq<char>| pre.variables.notes.contains_key(k),
                    |k: Seq<char>| if nns.take(j as int).contains(k) { pre.variables.notes[k].after_sketch_update() } else { pre.variables.notes[k] },
                ),
            decreases m - j,
        {
            proof {
                self.variables.lemma_view();
                self.variables.lemma_wf();
            }
            let ghost curn = self@.variables.notes;
            proof {
                self.variables.notes.lemma_entry(j as int);
            }
            let mut nt = *self.variables.notes.value_at(j);
            nt.after_sketch_update();
            self.variables.notes.set_at(j, nt);
            proof {
                self.variables.lemma_view();
                self.variables.lemma_wf();
                let k = nns[j as int];
                assert(self@.variables.notes =~= curn.insert(k, nt@));
                assert forall|q: Seq<char>| #[trigger] nns.take(j + 1).contains(q) <==> (nns.take(j as int).contains(q) || q == k) by {
                    assert(nns.take(j + 1) =~= nns.take(j as int).push(k));
                    lemma_push_contains(nns.take(j as int), k, q);
                }
                let target = Map::new(
                    |q: Seq<char>| pre.variables.notes.contains_key(q),
                    |q: Seq<char>| if nns.take(j + 1).contains(q) { pre.variables.notes[q].after_sketch_update() } else { pre.variables.notes[q] },
                );
                assert(curn.contains_key(k));
                assert(nt@ == curn[k].after_sketch_update());
                assert forall|q: Seq<char>| #[trigger] target.contains_key(q) implies self@.variables.notes[q] == target[q] by {
                    if q == k {
                        assert(nns.take(j + 1).contains(k));
                    } else {
                        assert(nns.take(j + 1).contains(q) == nns.take(j as int).contains(q));
                    }
                }
                assert(self@.variables.notes =~= target);
            }
            j = j + 1;
        }
        proof {
            self.variables.lemma_view();
            self.variables.lemma_wf();
            assert(nns.take(m as int) =~= nns);
            assert forall|q: Seq<char>| pre.variables.notes.contains_key(q) implies nns.contains(q) by {
                self.variables.notes.lemma_dom(q);
            }
            assert(self@.variables.notes =~= pre.variables.notes.map_values(|s: NoteState| s.after_sketch_update()));
        }
    }
}

} // verus!
