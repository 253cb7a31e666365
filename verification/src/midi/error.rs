use vstd::prelude::*;

verus! {

/// What can go wrong when a sketch reads MIDI variables or manages input
/// devices. Each variant carries the name it is about.
#[derive(PartialEq, Eq, Debug)]
pub enum MidiError {
    /// "MIDI control variable {name} could not be found"
    ControlNotFound(String),
    /// "MIDI encoder variable {name} could not be found"
    EncoderNotFound(String),
    /// "MIDI note variable {name} could not be found"
    NoteNotFound(String),
    /// "No MIDI variable mapping loaded"
    NoMappingLoaded,
    /// "MIDI input device {name} already connected"
    DeviceAlreadyConnected(String),
    /// "MIDI input device {name} is not connected"
    DeviceNotConnected(String),
    /// "MIDI input port for {name} could not be found"
    PortNotFound(String),
}

/// `prefix` + `name` + `suffix`.
pub open spec fn framed(prefix: Seq<char>, name: Seq<char>, suffix: Seq<char>) -> Seq<char> {
    prefix + name + suffix
}

fn frame(prefix: &str, name: &String, suffix: &str) -> (m: String)
    ensures
        m@ == framed(prefix@, name@, suffix@),
{
    let mut m = prefix.to_owned();
    m.append(name.as_str());
    m.append(suffix);
    m
}

impl MidiError {
    /// The text the error is reported with.
    pub fn message(&self) -> (m: String)
        ensures
            m@ == match self {
                MidiError::ControlNotFound(n) => framed("MIDI control variable "@, n@, " could not be found"@),
                MidiError::EncoderNotFound(n) => framed("MIDI encoder variable "@, n@, " could not be found"@),
                MidiError::NoteNotFound(n) => framed("MIDI note variable "@, n@, " could not be found"@),
                MidiError::NoMappingLoaded => "No MIDI variable mapping loaded"@,
                MidiError::DeviceAlreadyConnected(n) => framed("MIDI input device "@, n@, " already connected"@),
                MidiError::DeviceNotConnected(n) => framed("MIDI input device "@, n@, " is not connected"@),
                MidiError::PortNotFound(n) => framed("MIDI input port for "@, n@, " could not be found"@),
            },
    {
        match self {
            MidiError::ControlNotFound(n) => frame("MIDI control variable ", n, " could not be found"),
            MidiError::EncoderNotFound(n) => frame("MIDI encoder variable ", n, " could not be found"),
            MidiError::NoteNotFound(n) => frame("MIDI note variable ", n, " could not be found"),
            MidiError::NoMappingLoaded => "No MIDI variable mapping loaded".to_owned(),
            MidiError::DeviceAlreadyConnected(n) => frame("MIDI input device ", n, " already connected"),
            MidiError::DeviceNotConnected(n) => frame("MIDI input device ", n, " is not connected"),
            MidiError::PortNotFound(n) => frame("MIDI input port for ", n, " could not be found"),
        }
    }
}

} // verus!
