//! Notes, note events, effect columns and their byte encodings.

use vstd::prelude::*;

verus! {

/// A pitch, numbered 0 through 199. Twelve notes make one octave.
#[derive(Debug, Clone, Copy, PartialEq, Eq, PartialOrd, Ord, Structural)]
pub struct Note {
    /// The note number; kept at or below 199 by every constructor here.
    pub value: u8,
}

impl Note {
    /// Every note this module hands out satisfies this bound.
    pub open spec fn wf(self) -> bool {
        self.value <= 199
    }

    /// The note number, for use in contracts.
    pub open spec fn spec_get(self) -> u8 {
        self.value
    }

    /// Checked constructor: values above 199 are handed back unchanged.
    pub fn new(value: u8) -> (r: Result<Note, u8>)
        ensures
            value <= 199 ==> r == Ok::<Note, u8>(Note { value }),
            value > 199 ==> r == Err::<Note, u8>(value),
    {
        if value > 199 {
            Err(value)
        } else {
            Ok(Note { value })
        }
    }

    /// The octave, counting twelve notes per octave.
    pub fn get_octave(self) -> (r: u8)
        ensures
            r == self.value / 12,
    {
        self.value / 12
    }

    /// The name of the note within its octave.
    pub fn get_note_name(self) -> (r: &'static str)
        ensures
            self.value % 12 == 0 ==> r@ == "C"@,
            self.value % 12 == 1 ==> r@ == "C#"@,
            self.value % 12 == 2 ==> r@ == "D"@,
            self.value % 12 == 3 ==> r@ == "D#"@,
            self.value % 12 == 4 ==> r@ == "E"@,
            self.value % 12 == 5 ==> r@ == "F"@,
            self.value % 12 == 6 ==> r@ == "F#"@,
            self.value % 12 == 7 ==> r@ == "G"@,
            self.value % 12 == 8 ==> r@ == "G#"@,
            self.value % 12 == 9 ==> r@ == "A"@,
            self.value % 12 == 10 ==> r@ == "A#"@,
            self.value % 12 == 11 ==> r@ == "B"@,
    {
        match self.value % 12 {
            0 => "C",
            1 => "C#",
            2 => "D",
            3 => "D#",
            4 => "E",
            5 => "F",
            6 => "F#",
            7 => "G",
            8 => "G#",
            9 => "A",
            10 => "A#",
            _ => "B",
        }
    }

    /// The raw note number.
    pub fn get(self) -> (r: u8)
        ensures
            r == self.value,
    {
        self.value
    }
}

impl Default for Note {
    /// Middle C.
    fn default() -> (r: Self)
        ensures
            r == (Note { value: 60u8 }),
    {
        Note { value: 60 }
    }
}

/// The volume column of a note event.
#[derive(Debug, Clone, Copy, PartialEq, Eq, Structural)]
pub enum VolumeEffect {
    FineVolSlideUp(u8),
    FineVolSlideDown(u8),
    VolSlideUp(u8),
    VolSlideDown(u8),
    PitchSlideUp(u8),
    PitchSlideDown(u8),
    SlideToNoteWithSpeed(u8),
    VibratoWithSpeed(u8),
    Volume(u8),
    Panning(u8),
    /// Uses the sample's default volume.
    Unset,
}

impl VolumeEffect {
    /// The decoding of one volume-column byte, usable in contracts.
    pub open spec fn spec_from_byte(value: u8) -> Result<VolumeEffect, u8> {
        if value <= 64 {
            Ok(VolumeEffect::Volume(value))
        } else if value <= 74 {
            Ok(VolumeEffect::FineVolSlideUp((value - 65) as u8))
        } else if value <= 84 {
            Ok(VolumeEffect::FineVolSlideDown((value - 75) as u8))
        } else if value <= 94 {
            Ok(VolumeEffect::VolSlideUp((value - 85) as u8))
        } else if value <= 104 {
            Ok(VolumeEffect::VolSlideDown((value - 95) as u8))
        } else if value <= 114 {
            Ok(VolumeEffect::PitchSlideDown((value - 105) as u8))
        } else if value <= 124 {
            Ok(VolumeEffect::PitchSlideUp((value - 115) as u8))
        } else if 128 <= value && value <= 192 {
            Ok(VolumeEffect::Panning((value - 128) as u8))
        } else if 193 <= value && value <= 202 {
            Ok(VolumeEffect::SlideToNoteWithSpeed((value - 193) as u8))
        } else if 203 <= value && value <= 212 {
            Ok(VolumeEffect::VibratoWithSpeed((value - 203) as u8))
        } else {
            Err(value)
        }
    }

    /// Decode one volume-column byte of the module format. A byte with no
    /// assigned meaning is handed back unchanged.
    pub fn try_from(value: u8) -> (r: Result<VolumeEffect, u8>)
        ensures
            r == VolumeEffect::spec_from_byte(value),
    {
        if value <= 64 {
            Ok(VolumeEffect::Volume(value))
        } else if value <= 74 {
            Ok(VolumeEffect::FineVolSlideUp(value - 65))
        } else if value <= 84 {
            Ok(VolumeEffect::FineVolSlideDown(value - 75))
        } else if value <= 94 {
            Ok(VolumeEffect::VolSlideUp(value - 85))
        } else if value <= 104 {
            Ok(VolumeEffect::VolSlideDown(value - 95))
        } else if value <= 114 {
            Ok(VolumeEffect::PitchSlideDown(value - 105))
        } else if value <= 124 {
            Ok(VolumeEffect::PitchSlideUp(value - 115))
        } else if 128 <= value && value <= 192 {
            Ok(VolumeEffect::Panning(value - 128))
        } else if 193 <= value && value <= 202 {
            Ok(VolumeEffect::SlideToNoteWithSpeed(value - 193))
        } else if 203 <= value && value <= 212 {
            Ok(VolumeEffect::VibratoWithSpeed(value - 203))
        } else {
            Err(value)
        }
    }
}

impl Default for VolumeEffect {
    fn default() -> (r: Self)
        ensures
            r == VolumeEffect::Unset,
    {
        VolumeEffect::Unset
    }
}

/// Marker returned when an effect-column byte names no known command.
#[derive(Debug, Clone, Copy, PartialEq, Eq, Structural)]
pub struct UnknownCommand;

/// The effect column of a note event, one variant per effect letter.
#[derive(Debug, Clone, Copy, PartialEq, Eq, Structural)]
pub enum NoteCommand {
    Unset,
    SetTempo(u8),
    JumpToOrder(u8),
    BreakToRow(u8),
    VolumeSlideDown(u8),
    PitchSlideDown(u8),
    PitchSlideUp(u8),
    SlideToNote(u8),
    Vibrato(u8),
    Tremor(u8),
    Arpeggio(u8),
    VibratoAndVolSlideDown(u8),
    SlideToNoteAndVolSlideDown(u8),
    SetChannelVol(u8),
    ChannelVolumeSlideDown(u8),
    SetSampleOffset(u8),
    PanningSlide(u8),
    RetriggerNote(u8),
    Tremolo(u8),
    AlmostEverything(u8),
    TempoChange(u8),
    FineVibrato(u8),
    SetGlobalVolume(u8),
    GlobalVolumeSlide(u8),
    SetPanning(u8),
    Panbrello(u8),
    MIDIMacros(u8),
}

impl NoteCommand {
    /// The decoding of an effect letter and value, usable in contracts.
    pub open spec fn spec_from_bytes(ty: u8, val: u8) -> Result<NoteCommand, UnknownCommand> {
        match ty {
            0u8 => Ok(NoteCommand::Unset),
            1u8 => Ok(NoteCommand::SetTempo(val)),
            2u8 => Ok(NoteCommand::JumpToOrder(val)),
            3u8 => Ok(NoteCommand::BreakToRow(val)),
            4u8 => Ok(NoteCommand::VolumeSlideDown(val)),
            5u8 => Ok(NoteCommand::PitchSlideDown(val)),
            6u8 => Ok(NoteCommand::PitchSlideUp(val)),
            7u8 => Ok(NoteCommand::SlideToNote(val)),
            8u8 => Ok(NoteCommand::Vibrato(val)),
            9u8 => Ok(NoteCommand::Tremor(val)),
            10u8 => Ok(NoteCommand::Arpeggio(val)),
            11u8 => Ok(NoteCommand::VibratoAndVolSlideDown(val)),
            12u8 => Ok(NoteCommand::SlideToNoteAndVolSlideDown(val)),
            13u8 => Ok(NoteCommand::SetChannelVol(val)),
            14u8 => Ok(NoteCommand::ChannelVolumeSlideDown(val)),
            15u8 => Ok(NoteCommand::SetSampleOffset(val)),
            16u8 => Ok(NoteCommand::PanningSlide(val)),
            17u8 => Ok(NoteCommand::RetriggerNote(val)),
            18u8 => Ok(NoteCommand::Tremolo(val)),
            19u8 => Ok(NoteCommand::AlmostEverything(val)),
            20u8 => Ok(NoteCommand::TempoChange(val)),
            21u8 => Ok(NoteCommand::FineVibrato(val)),
            22u8 => Ok(NoteCommand::SetGlobalVolume(val)),
            23u8 => Ok(NoteCommand::GlobalVolumeSlide(val)),
            24u8 => Ok(NoteCommand::SetPanning(val)),
            25u8 => Ok(NoteCommand::Panbrello(val)),
            26u8 => Ok(NoteCommand::MIDIMacros(val)),
            _ => Err(UnknownCommand),
        }
    }

    /// Decode an effect letter (0 through 26) and its value byte.
    pub fn try_from(pair: (u8, u8)) -> (r: Result<NoteCommand, UnknownCommand>)
        ensures
            r == NoteCommand::spec_from_bytes(pair.0, pair.1),
    {
        let (ty, val) = pair;
        match ty {
            0 => Ok(NoteCommand::Unset),
            1 => Ok(NoteCommand::SetTempo(val)),
            2 => Ok(NoteCommand::JumpToOrder(val)),
            3 => Ok(NoteCommand::BreakToRow(val)),
            4 => Ok(NoteCommand::VolumeSlideDown(val)),
            5 => Ok(NoteCommand::PitchSlideDown(val)),
            6 => Ok(NoteCommand::PitchSlideUp(val)),
            7 => Ok(NoteCommand::SlideToNote(val)),
            8 => Ok(NoteCommand::Vibrato(val)),
            9 => Ok(NoteCommand::Tremor(val)),
            10 => Ok(NoteCommand::Arpeggio(val)),
            11 => Ok(NoteCommand::VibratoAndVolSlideDown(val)),
            12 => Ok(NoteCommand::SlideToNoteAndVolSlideDown(val)),
            13 => Ok(NoteCommand::SetChannelVol(val)),
            14 => Ok(NoteCommand::ChannelVolumeSlideDown(val)),
            15 => Ok(NoteCommand::SetSampleOffset(val)),
            16 => Ok(NoteCommand::PanningSlide(val)),
            17 => Ok(NoteCommand::RetriggerNote(val)),
            18 => Ok(NoteCommand::Tremolo(val)),
            19 => Ok(NoteCommand::AlmostEverything(val)),
            20 => Ok(NoteCommand::TempoChange(val)),
            21 => Ok(NoteCommand::FineVibrato(val)),
            22 => Ok(NoteCommand::SetGlobalVolume(val)),
            23 => Ok(NoteCommand::GlobalVolumeSlide(val)),
            24 => Ok(NoteCommand::SetPanning(val)),
            25 => Ok(NoteCommand::Panbrello(val)),
            26 => Ok(NoteCommand::MIDIMacros(val)),
            _ => Err(UnknownCommand),
        }
    }
}

impl Default for NoteCommand {
    fn default() -> (r: Self)
        ensures
            r == NoteCommand::Unset,
    {
        NoteCommand::Unset
    }
}

/// One cell of a pattern: a note, the sample to play it on, and the two
/// effect columns.
#[derive(Debug, Clone, Copy, PartialEq, Eq, Structural)]
pub struct NoteEvent {
    pub note: Note,
    pub sample_instr: u8,
    pub vol: VolumeEffect,
    pub command: NoteCommand,
}

impl NoteEvent {
    pub open spec fn wf(self) -> bool {
        self.note.wf()
    }
}

impl Default for NoteEvent {
    fn default() -> (r: Self)
        ensures
            r == (NoteEvent {
                note: Note { value: 60u8 },
                sample_instr: 0u8,
                vol: VolumeEffect::Unset,
                command: NoteCommand::Unset,
            }),
    {
        NoteEvent {
            note: Note { value: 60 },
            sample_instr: 0,
            vol: VolumeEffect::Unset,
            command: NoteCommand::Unset,
        }
    }
}

/// Stereo placement of one channel.
#[derive(Debug, Clone, Copy, PartialEq, Eq, Structural)]
pub enum Pan {
    /// 0 through 64, 32 being the centre.
    Value(u8),
    Surround,
    Disabled,
}

impl Pan {
    /// The decoding of one pan byte, usable in contracts.
    pub open spec fn spec_from_byte(value: u8) -> Result<Pan, u8> {
        if value == 100 {
            Ok(Pan::Surround)
        } else if value == 128 {
            Ok(Pan::Disabled)
        } else if value <= 64 {
            Ok(Pan::Value(value))
        } else {
            Err(value)
        }
    }

    /// Decode one pan byte. Bytes with no assigned meaning come back unchanged.
    pub fn try_from(value: u8) -> (r: Result<Pan, u8>)
        ensures
            r == Pan::spec_from_byte(value),
    {
        if value == 100 {
            Ok(Pan::Surround)
        } else if value == 128 {
            Ok(Pan::Disabled)
        } else if value <= 64 {
            Ok(Pan::Value(value))
        } else {
            Err(value)
        }
    }
}

impl Default for Pan {
    /// Centre placement.
    fn default() -> (r: Self)
        ensures
            r == Pan::Value(32u8),
    {
        Pan::Value(32)
    }
}

} // verus!
