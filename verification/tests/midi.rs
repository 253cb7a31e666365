use visor::midi::config::MidiVariableConfig;
use visor::midi::control::MidiControl;
use visor::midi::encoder::{MidiEncoder, MidiEncoderMode};
use visor::midi::error::MidiError;
use visor::midi::mapping::{MidiMapping, MidiMappingEvent};
use visor::midi::message::{read_live_message, MidiMessage};
use visor::midi::note::MidiNote;
use visor::midi::plugin::{
    find_input_port, input_device_names, MidiPlugin, MidiPluginEvent, MidiPluginState, SketchMidiState,
};

fn sample_config() -> Vec<(String, MidiVariableConfig)> {
    vec![
        ("cutoff".to_string(), MidiVariableConfig::Control { channel: 0, number: 10, default_value: Some(32) }),
        ("knob".to_string(), MidiVariableConfig::Encoder { channel: 0, number: 11, mode: MidiEncoderMode::Mode7fh01h }),
        ("kick".to_string(), MidiVariableConfig::Note { channel: 9, number: 36 }),
        ("volume".to_string(), MidiVariableConfig::Control { channel: 0, number: 7, default_value: None }),
    ]
}

#[test]
fn encoder_7fh_01h_mode() {
    let mut e = MidiEncoder::new(MidiEncoderMode::Mode7fh01h);
    assert!(!e.is_increment() && !e.is_decrement());
    e.changed(1);
    assert!(e.is_increment() && !e.is_decrement());
    e.after_sketch_update();
    e.changed(64);
    assert!(e.is_increment());
    e.after_sketch_update();
    e.changed(65);
    assert!(!e.is_increment() && e.is_decrement());
    e.after_sketch_update();
    e.changed(127);
    assert!(e.is_decrement());
    e.after_sketch_update();
    e.changed(200);
    assert!(!e.is_increment() && !e.is_decrement());
}

#[test]
fn encoder_3fh_41h_mode() {
    let mut e = MidiEncoder::new(MidiEncoderMode::Mode3fh41h);
    e.changed(65);
    assert!(e.is_increment() && !e.is_decrement());
    e.after_sketch_update();
    e.changed(63);
    assert!(!e.is_increment() && e.is_decrement());
    e.after_sketch_update();
    e.changed(64);
    assert!(!e.is_increment() && !e.is_decrement());
    e.changed(0);
    assert!(e.is_decrement());
}

#[test]
fn encoder_both_turns_in_one_update() {
    let mut e = MidiEncoder::new(MidiEncoderMode::Mode7fh01h);
    e.changed(1);
    e.changed(127);
    assert!(e.is_increment() && e.is_decrement());
    e.after_sketch_update();
    assert!(!e.is_increment() && !e.is_decrement());
}

#[test]
fn control_default_and_change() {
    assert_eq!(MidiControl::new(Some(64)).value(), 64);
    assert_eq!(MidiControl::new(None).value(), 0);
    let mut c = MidiControl::new(None);
    c.changed(127);
    assert_eq!(c.value(), 127);
}

#[test]
fn note_press_and_release() {
    let mut n = MidiNote::new();
    assert!(!n.is_on() && !n.is_off() && !n.is_down());
    assert_eq!(n.velocity(), 0);
    n.on(100);
    assert!(n.is_on() && n.is_down() && !n.is_off());
    assert_eq!(n.velocity(), 100);
    n.after_sketch_update();
    assert!(!n.is_on() && n.is_down());
    assert_eq!(n.velocity(), 100);
    n.off(20);
    assert!(n.is_off() && !n.is_down());
    assert_eq!(n.velocity(), 20);
    n.after_sketch_update();
    assert!(!n.is_off() && !n.is_on() && !n.is_down());
}

#[test]
fn mapping_from_config_starting_values() {
    let m = MidiMapping::from_config(sample_config());
    let v = m.variables();
    assert_eq!(v.control_value("cutoff"), Ok(32));
    assert_eq!(v.control_value("volume"), Ok(0));
    assert_eq!(v.is_encoder_increment("knob"), Ok(false));
    assert_eq!(v.is_note_down("kick"), Ok(false));
    assert_eq!(v.note_velocity("kick"), Ok(0));
}

#[test]
fn mapping_unknown_names() {
    let m = MidiMapping::from_config(sample_config());
    let v = m.variables();
    assert_eq!(v.control_value("missing"), Err(MidiError::ControlNotFound("missing".to_string())));
    assert_eq!(v.control_value("knob"), Err(MidiError::ControlNotFound("knob".to_string())));
    assert_eq!(v.is_encoder_decrement("cutoff"), Err(MidiError::EncoderNotFound("cutoff".to_string())));
    assert_eq!(v.is_note_on("nope"), Err(MidiError::NoteNotFound("nope".to_string())));
    assert_eq!(v.is_note_off("nope"), Err(MidiError::NoteNotFound("nope".to_string())));
}

#[test]
fn mapping_controller_changes() {
    let mut m = MidiMapping::from_config(sample_config());
    let events = m.controller_changed(0, 10, 100);
    assert_eq!(events, vec![("cutoff".to_string(), MidiMappingEvent::ControllerChanged(100))]);
    assert_eq!(m.variables().control_value("cutoff"), Ok(100));
    assert_eq!(m.variables().control_value("volume"), Ok(0));

    let events = m.controller_changed(0, 11, 1);
    assert_eq!(events, vec![("knob".to_string(), MidiMappingEvent::EncoderIncrement)]);
    assert_eq!(m.variables().is_encoder_increment("knob"), Ok(true));

    m.after_sketch_update();
    let events = m.controller_changed(0, 11, 120);
    assert_eq!(events, vec![("knob".to_string(), MidiMappingEvent::EncoderDecrement)]);
    assert_eq!(m.variables().is_encoder_increment("knob"), Ok(false));
    assert_eq!(m.variables().is_encoder_decrement("knob"), Ok(true));
}

#[test]
fn mapping_encoder_without_turn_announces_nothing() {
    let config = vec![("dial".to_string(), MidiVariableConfig::Encoder { channel: 2, number: 1, mode: MidiEncoderMode::Mode3fh41h })];
    let mut m = MidiMapping::from_config(config);
    assert_eq!(m.controller_changed(2, 1, 64), vec![]);
    assert_eq!(m.variables().is_encoder_increment("dial"), Ok(false));
}

#[test]
fn mapping_unrouted_message_is_ignored() {
    let mut m = MidiMapping::from_config(sample_config());
    assert_eq!(m.controller_changed(1, 10, 5), vec![]);
    assert_eq!(m.variables().control_value("cutoff"), Ok(32));
    assert_eq!(m.note_on(9, 37, 90), vec![]);
    assert_eq!(m.variables().is_note_on("kick"), Ok(false));
}

#[test]
fn mapping_shared_route_in_config_order() {
    let config = vec![
        ("a".to_string(), MidiVariableConfig::Control { channel: 1, number: 1, default_value: None }),
        ("b".to_string(), MidiVariableConfig::Control { channel: 1, number: 1, default_value: Some(5) }),
        ("c".to_string(), MidiVariableConfig::Encoder { channel: 1, number: 1, mode: MidiEncoderMode::Mode3fh41h }),
    ];
    let mut m = MidiMapping::from_config(config);
    let events = m.controller_changed(1, 1, 70);
    assert_eq!(
        events,
        vec![
            ("a".to_string(), MidiMappingEvent::ControllerChanged(70)),
            ("b".to_string(), MidiMappingEvent::ControllerChanged(70)),
            ("c".to_string(), MidiMappingEvent::EncoderIncrement),
        ]
    );
    assert_eq!(m.variables().control_value("a"), Ok(70));
    assert_eq!(m.variables().control_value("b"), Ok(70));
}

#[test]
fn mapping_notes_and_update_end() {
    let mut m = MidiMapping::from_config(sample_config());
    assert_eq!(m.note_on(9, 36, 127), vec![("kick".to_string(), MidiMappingEvent::NoteOn(127))]);
    assert_eq!(m.variables().is_note_on("kick"), Ok(true));
    assert_eq!(m.variables().is_note_down("kick"), Ok(true));
    m.after_sketch_update();
    assert_eq!(m.variables().is_note_on("kick"), Ok(false));
    assert_eq!(m.variables().is_note_down("kick"), Ok(true));
    assert_eq!(m.variables().note_velocity("kick"), Ok(127));
    assert_eq!(m.note_off(9, 36, 3), vec![("kick".to_string(), MidiMappingEvent::NoteOff(3))]);
    assert_eq!(m.variables().is_note_off("kick"), Ok(true));
    assert_eq!(m.variables().is_note_down("kick"), Ok(false));
    assert_eq!(m.variables().note_velocity("kick"), Ok(3));
}

#[test]
fn mapping_process_message_dispatch() {
    let mut m = MidiMapping::from_config(sample_config());
    assert_eq!(
        m.process_message(0, MidiMessage::Controller { controller: 7, value: 90 }),
        vec![("volume".to_string(), MidiMappingEvent::ControllerChanged(90))]
    );
    assert_eq!(
        m.process_message(9, MidiMessage::NoteOn { key: 36, vel: 64 }),
        vec![("kick".to_string(), MidiMappingEvent::NoteOn(64))]
    );
    assert_eq!(
        m.process_message(9, MidiMessage::NoteOff { key: 36, vel: 0 }),
        vec![("kick".to_string(), MidiMappingEvent::NoteOff(0))]
    );
    assert_eq!(m.process_message(0, MidiMessage::Other), vec![]);
    assert_eq!(m.variables().control_value("volume"), Ok(90));
}

#[test]
fn mapping_duplicate_name_later_binding_wins() {
    let config = vec![
        ("x".to_string(), MidiVariableConfig::Control { channel: 0, number: 1, default_value: Some(1) }),
        ("x".to_string(), MidiVariableConfig::Control { channel: 0, number: 2, default_value: Some(2) }),
    ];
    let m = MidiMapping::from_config(config);
    assert_eq!(m.variables().control_value("x"), Ok(2));
}

#[test]
fn live_messages_are_read() {
    assert_eq!(read_live_message(&[0x90, 60, 100]), Some((0, MidiMessage::NoteOn { key: 60, vel: 100 })));
    assert_eq!(read_live_message(&[0x85, 61, 10]), Some((5, MidiMessage::NoteOff { key: 61, vel: 10 })));
    assert_eq!(read_live_message(&[0xB3, 7, 127]), Some((3, MidiMessage::Controller { controller: 7, value: 127 })));
    assert_eq!(read_live_message(&[0xC0, 5]), Some((0, MidiMessage::Other)));
    assert_eq!(read_live_message(&[0xE1, 0, 64]), Some((1, MidiMessage::Other)));
}

#[test]
fn live_non_channel_or_malformed_messages_are_dropped() {
    assert_eq!(read_live_message(&[]), None);
    assert_eq!(read_live_message(&[0xF8]), None);
    assert_eq!(read_live_message(&[0xC2]), None);
    assert_eq!(read_live_message(&[0xC2, 0x85]), None);
    assert_eq!(read_live_message(&[0xE1, 0, 64]), Some((1, MidiMessage::Other)));
    assert_eq!(read_live_message(&[0xE1, 0]), None);
    assert_eq!(read_live_message(&[0x40, 1, 2]), None);
    assert_eq!(read_live_message(&[0x90, 60]), None);
    assert_eq!(read_live_message(&[0xB0, 200, 1]), None);
}

#[test]
fn sketch_state_device_checks() {
    let s = SketchMidiState { input_connections: vec!["Keys".to_string()], variables: None };
    assert_eq!(s.check_connect("Keys"), Err(MidiError::DeviceAlreadyConnected("Keys".to_string())));
    assert_eq!(s.check_connect("Pads"), Ok(()));
    assert_eq!(s.check_disconnect("Keys"), Ok(()));
    assert_eq!(s.check_disconnect("Pads"), Err(MidiError::DeviceNotConnected("Pads".to_string())));
}

#[test]
fn sketch_state_without_mapping() {
    let s = SketchMidiState { input_connections: vec![], variables: None };
    assert_eq!(s.control_value("a"), Err(MidiError::NoMappingLoaded));
    assert_eq!(s.encoder_increment("a"), Err(MidiError::NoMappingLoaded));
    assert_eq!(s.encoder_decrement("a"), Err(MidiError::NoMappingLoaded));
    assert_eq!(s.note_on("a"), Err(MidiError::NoMappingLoaded));
    assert_eq!(s.note_off("a"), Err(MidiError::NoMappingLoaded));
    assert_eq!(s.note_down("a"), Err(MidiError::NoMappingLoaded));
    assert_eq!(s.note_velocity("a"), Err(MidiError::NoMappingLoaded));
}

#[test]
fn sketch_state_with_mapping() {
    let mut s = SketchMidiState { input_connections: vec![], variables: None };
    let m = MidiMapping::from_config(sample_config());
    s.set_variables(m.variables().snapshot());
    assert_eq!(s.control_value("cutoff"), Ok(32));
    assert_eq!(s.note_down("kick"), Ok(false));
    assert_eq!(s.control_value("kick"), Err(MidiError::ControlNotFound("kick".to_string())));
}

#[test]
fn plugin_state_connections() {
    let mut p: MidiPluginState<u32> = MidiPlugin::new_state();
    assert_eq!(p.check_connect("Keys"), Ok(()));
    p.add_connection("Keys".to_string(), 7);
    assert_eq!(p.check_connect("Keys"), Err(MidiError::DeviceAlreadyConnected("Keys".to_string())));
    assert_eq!(p.handle_event(MidiPluginEvent::AddInputConnection("Pads".to_string(), 8)), None);
    let sketch = p.sketch_state();
    assert_eq!(sketch.input_connections, vec!["Keys".to_string(), "Pads".to_string()]);
    assert!(sketch.variables.is_none());
    assert_eq!(p.handle_event(MidiPluginEvent::RemoveInputConnection("Keys".to_string())), Some(7));
    assert_eq!(p.remove_connection("Keys"), None);
    assert_eq!(p.sketch_state().input_connections, vec!["Pads".to_string()]);
}

#[test]
fn plugin_state_mapping_flow() {
    let mut p: MidiPluginState<u32> = MidiPluginState::new();
    assert_eq!(p.process_message(0, MidiMessage::Controller { controller: 10, value: 1 }), vec![]);
    assert_eq!(p.handle_event(MidiPluginEvent::LoadMapping(MidiMapping::from_config(sample_config()))), None);
    assert_eq!(
        p.process_message(0, MidiMessage::Controller { controller: 11, value: 1 }),
        vec![("knob".to_string(), MidiMappingEvent::EncoderIncrement)]
    );
    let sketch = p.sketch_state();
    assert_eq!(sketch.encoder_increment("knob"), Ok(true));
    p.after_engine_update();
    assert_eq!(p.sketch_state().encoder_increment("knob"), Ok(false));
    assert_eq!(sketch.encoder_increment("knob"), Ok(true));
}

#[test]
fn input_devices_and_ports() {
    let ports = vec![Some("IAC Bus".to_string()), None, Some("Launch Control".to_string()), Some("IAC Bus".to_string())];
    assert_eq!(input_device_names(&ports), vec!["IAC Bus".to_string(), "Launch Control".to_string(), "IAC Bus".to_string()]);
    assert_eq!(find_input_port(&ports, "IAC Bus"), Ok(0));
    assert_eq!(find_input_port(&ports, "Launch Control"), Ok(2));
    let missing = find_input_port(&ports, "Nope");
    assert_eq!(missing, Err(MidiError::PortNotFound("Nope".to_string())));
    assert_eq!(missing.unwrap_err().message(), "MIDI input port for Nope could not be found");
}

#[test]
fn midi_error_messages() {
    assert_eq!(MidiError::ControlNotFound("x".to_string()).message(), "MIDI control variable x could not be found");
    assert_eq!(MidiError::EncoderNotFound("x".to_string()).message(), "MIDI encoder variable x could not be found");
    assert_eq!(MidiError::NoteNotFound("x".to_string()).message(), "MIDI note variable x could not be found");
    assert_eq!(MidiError::NoMappingLoaded.message(), "No MIDI variable mapping loaded");
    assert_eq!(MidiError::DeviceAlreadyConnected("d".to_string()).message(), "MIDI input device d already connected");
    assert_eq!(MidiError::DeviceNotConnected("d".to_string()).message(), "MIDI input device d is not connected");
}

#[test]
fn live_voice_messages_read_their_data_bytes() {
    assert_eq!(read_live_message(&[0x93, 60, 0]), Some((3, MidiMessage::NoteOn { key: 60, vel: 0 })));
    assert_eq!(read_live_message(&[0x80, 61, 127, 0xF8]), Some((0, MidiMessage::NoteOff { key: 61, vel: 127 })));
    assert_eq!(read_live_message(&[0xBF, 7, 99]), Some((15, MidiMessage::Controller { controller: 7, value: 99 })));
    assert_eq!(read_live_message(&[0xB0, 7]), None);
    assert_eq!(read_live_message(&[0xB0, 7, 0x80]), None);
    assert_eq!(read_live_message(&[0xC2, 5]), Some((2, MidiMessage::Other)));
    assert_eq!(read_live_message(&[0xF8]), None);
    assert_eq!(read_live_message(&[0xC2]), None);
    assert_eq!(read_live_message(&[0xC2, 0x85]), None);
    assert_eq!(read_live_message(&[0xE1, 0, 64]), Some((1, MidiMessage::Other)));
    assert_eq!(read_live_message(&[0xE1, 0]), None);
    assert_eq!(read_live_message(&[0x40, 1, 2]), None);
}
