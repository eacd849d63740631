//! The per-instrument header of the module format.

use vstd::prelude::*;

use crate::file_format::err::{LoadDefect, LoadErr};
use crate::file_format::header::{is_utf8, le16, nul_prefix_len, read_le16};

verus! {

/// Fixed size of an instrument header.
pub const INSTRUMENT_SIZE: usize = 554;

/// Fixed size of one envelope block.
pub const ENVELOPE_SIZE: usize = 81;

/// What happens when a new note starts on a busy channel.
#[derive(Debug, Clone, Copy, PartialEq, Eq, Structural)]
pub enum NewNoteAction {
    Cut,
    Continue,
    NoteOff,
    NoteFade,
}

impl NewNoteAction {
    /// The decoding of one action byte, usable in contracts.
    pub open spec fn spec_from_byte(value: u8) -> Result<NewNoteAction, u8> {
        if value == 0 {
            Ok(NewNoteAction::Cut)
        } else if value == 1 {
            Ok(NewNoteAction::Continue)
        } else if value == 2 {
            Ok(NewNoteAction::NoteOff)
        } else if value == 3 {
            Ok(NewNoteAction::NoteFade)
        } else {
            Err(value)
        }
    }

    /// Decode one action byte; unknown bytes come back unchanged.
    pub fn try_from(value: u8) -> (r: Result<NewNoteAction, u8>)
        ensures
            r == NewNoteAction::spec_from_byte(value),
    {
        match value {
            0 => Ok(NewNoteAction::Cut),
            1 => Ok(NewNoteAction::Continue),
            2 => Ok(NewNoteAction::NoteOff),
            3 => Ok(NewNoteAction::NoteFade),
            _ => Err(value),
        }
    }
}

impl Default for NewNoteAction {
    fn default() -> (r: Self)
        ensures
            r == NewNoteAction::Cut,
    {
        NewNoteAction::Cut
    }
}

/// What counts as a duplicate note.
#[derive(Debug, Clone, Copy, PartialEq, Eq, Structural)]
pub enum DuplicateCheckType {
    Off,
    Note,
    Sample,
    Instrument,
}

impl DuplicateCheckType {
    /// The decoding of one byte, usable in contracts.
    pub open spec fn spec_from_byte(value: u8) -> Result<DuplicateCheckType, u8> {
        if value == 0 {
            Ok(DuplicateCheckType::Off)
        } else if value == 1 {
            Ok(DuplicateCheckType::Note)
        } else if value == 2 {
            Ok(DuplicateCheckType::Sample)
        } else if value == 3 {
            Ok(DuplicateCheckType::Instrument)
        } else {
            Err(value)
        }
    }

    /// Decode one byte; unknown bytes come back unchanged.
    pub fn try_from(value: u8) -> (r: Result<DuplicateCheckType, u8>)
        ensures
            r == DuplicateCheckType::spec_from_byte(value),
    {
        match value {
            0 => Ok(DuplicateCheckType::Off),
            1 => Ok(DuplicateCheckType::Note),
            2 => Ok(DuplicateCheckType::Sample),
            3 => Ok(DuplicateCheckType::Instrument),
            _ => Err(value),
        }
    }
}

impl Default for DuplicateCheckType {
    fn default() -> (r: Self)
        ensures
            r == DuplicateCheckType::Off,
    {
        DuplicateCheckType::Off
    }
}

/// What happens to the older of two duplicate notes.
#[derive(Debug, Clone, Copy, PartialEq, Eq, Structural)]
pub enum DuplicateCheckAction {
    Cut,
    NoteOff,
    NoteFade,
}

impl DuplicateCheckAction {
    /// The decoding of one byte, usable in contracts.
    pub open spec fn spec_from_byte(value: u8) -> Result<DuplicateCheckAction, u8> {
        if value == 0 {
            Ok(DuplicateCheckAction::Cut)
        } else if value == 1 {
            Ok(DuplicateCheckAction::NoteOff)
        } else if value == 2 {
            Ok(DuplicateCheckAction::NoteFade)
        } else {
            Err(value)
        }
    }

    /// Decode one byte; unknown bytes come back unchanged.
    pub fn try_from(value: u8) -> (r: Result<DuplicateCheckAction, u8>)
        ensures
            r == DuplicateCheckAction::spec_from_byte(value),
    {
        match value {
            0 => Ok(DuplicateCheckAction::Cut),
            1 => Ok(DuplicateCheckAction::NoteOff),
            2 => Ok(DuplicateCheckAction::NoteFade),
            _ => Err(value),
        }
    }
}

impl Default for DuplicateCheckAction {
    fn default() -> (r: Self)
        ensures
            r == DuplicateCheckAction::Cut,
    {
        DuplicateCheckAction::Cut
    }
}

/// One envelope block: flags, node count, loop points and 25 nodes.
#[derive(Debug)]
pub struct ImpulseEnvelope {
    pub flags: u8,
    pub num_node_points: u8,
    pub loop_start: u8,
    pub loop_end: u8,
    pub sustain_loop_start: u8,
    pub sustain_loop_end: u8,
    /// Always 25 nodes of (position, value).
    pub nodes: Vec<(u8, u16)>,
}

impl ImpulseEnvelope {
    /// Decode one envelope block starting at byte `at`.
    pub fn load(buf: &[u8], at: usize) -> (r: ImpulseEnvelope)
        requires
            at + ENVELOPE_SIZE <= buf@.len(),
        ensures
            r.flags == buf@[at as int],
            r.num_node_points == buf@[at + 1],
            r.loop_start == buf@[at + 2],
            r.loop_end == buf@[at + 3],
            r.sustain_loop_start == buf@[at + 4],
            r.sustain_loop_end == buf@[at + 5],
            r.nodes@.len() == 25,
            forall|i: int|
                0 <= i < 25 ==> #[trigger] r.nodes@[i] == (
                buf@[at + 6 + 3 * i],
                le16(buf@, at + 7 + 3 * i),
            ),
    {
        let n = buf.len();
        proof {
            assert(n == buf@.len());
        }
        let mut nodes: Vec<(u8, u16)> = Vec::new();
        let mut i: usize = 0;
        while i < 25
            invariant
                i <= 25,
                at + ENVELOPE_SIZE <= buf@.len() <= usize::MAX,
                nodes@.len() == i,
                forall|k: int|
                    0 <= k < i ==> #[trigger] nodes@[k] == (
                    buf@[at + 6 + 3 * k],
                    le16(buf@, at + 7 + 3 * k),
                ),
            decreases 25 - i,
        {
            let base = at + 6 + 3 * i;
            nodes.push((buf[base], read_le16(buf, base + 1)));
            i += 1;
        }
        ImpulseEnvelope {
            flags: buf[at],
            num_node_points: buf[at + 1],
            loop_start: buf[at + 2],
            loop_end: buf[at + 3],
            sustain_loop_start: buf[at + 4],
            sustain_loop_end: buf[at + 5],
            nodes,
        }
    }
}

/// The instrument header starts with its magic bytes.
pub open spec fn instrument_magic_ok(b: Seq<u8>) -> bool {
    b[0] == 0x49u8 && b[1] == 0x4Du8 && b[2] == 0x50u8 && b[3] == 0x49u8
}

/// The instrument name's bytes: what stands before the first zero byte in
/// the header's name field.
pub open spec fn instrument_name_span(b: Seq<u8>) -> Seq<u8> {
    crate::file_format::header::nul_span_of(b, 0x20, 0x3A)
}

/// Read the new-note-action byte, reporting unknown values.
fn read_nna(buf: &[u8], i: usize, defects: &mut Vec<LoadDefect>) -> (r: NewNoteAction)
    requires
        i < buf@.len(),
    ensures
        old(defects)@.is_prefix_of(final(defects)@),
        r == nna_of(buf@[i as int]),
{
    match NewNoteAction::try_from(buf[i]) {
        Ok(a) => a,
        Err(_) => {
            defects.push(LoadDefect::OutOfBoundsValue);
            NewNoteAction::Cut
        },
    }
}

/// Read the duplicate-check-type byte, reporting unknown values.
fn read_dct(buf: &[u8], i: usize, defects: &mut Vec<LoadDefect>) -> (r: DuplicateCheckType)
    requires
        i < buf@.len(),
    ensures
        old(defects)@.is_prefix_of(final(defects)@),
        r == dct_of(buf@[i as int]),
{
    match DuplicateCheckType::try_from(buf[i]) {
        Ok(a) => a,
        Err(_) => {
            defects.push(LoadDefect::OutOfBoundsValue);
            DuplicateCheckType::Off
        },
    }
}

/// Read the duplicate-check-action byte, reporting unknown values.
fn read_dca(buf: &[u8], i: usize, defects: &mut Vec<LoadDefect>) -> (r: DuplicateCheckAction)
    requires
        i < buf@.len(),
    ensures
        old(defects)@.is_prefix_of(final(defects)@),
        r == dca_of(buf@[i as int]),
{
    match DuplicateCheckAction::try_from(buf[i]) {
        Ok(a) => a,
        Err(_) => {
            defects.push(LoadDefect::OutOfBoundsValue);
            DuplicateCheckAction::Cut
        },
    }
}

/// Read the pitch-pan separation byte, zeroing out-of-range values.
fn read_pps(buf: &[u8], i: usize, defects: &mut Vec<LoadDefect>) -> (r: i8)
    requires
        i < buf@.len(),
    ensures
        old(defects)@.is_prefix_of(final(defects)@),
        r == pps_of(buf@[i as int]),
{
    let tmp = buf[i] as i8;
    if tmp < -32 || tmp > 32 {
        defects.push(LoadDefect::OutOfBoundsValue);
        0
    } else {
        tmp
    }
}

/// Read the default pan byte: 128 disables it, out-of-range values fall
/// back to centre.
fn read_instr_pan(buf: &[u8], i: usize, defects: &mut Vec<LoadDefect>) -> (r: Option<u8>)
    requires
        i < buf@.len(),
    ensures
        old(defects)@.is_prefix_of(final(defects)@),
        r == instr_pan_of(buf@[i as int]),
{
    if buf[i] == 128 {
        None
    } else if buf[i] > 64 {
        defects.push(LoadDefect::OutOfBoundsValue);
        Some(32)
    } else {
        Some(buf[i])
    }
}

/// Read the 120-entry note-to-sample table.
fn read_note_sample_table(buf: &[u8]) -> (r: Vec<(u8, u8)>)
    requires
        buf@.len() >= INSTRUMENT_SIZE,
    ensures
        r@.len() == 120,
        forall|i: int|
            0 <= i < 120 ==> #[trigger] r@[i] == (buf@[0x40 + 2 * i], buf@[0x41 + 2 * i]),
{
    let mut table: Vec<(u8, u8)> = Vec::new();
    let mut i: usize = 0;
    while i < 120
        invariant
            i <= 120,
            buf@.len() >= INSTRUMENT_SIZE,
            table@.len() == i,
            forall|k: int|
                0 <= k < i ==> #[trigger] table@[k] == (buf@[0x40 + 2 * k], buf@[0x41 + 2 * k]),
        decreases 120 - i,
    {
        table.push((buf[0x40 + 2 * i], buf[0x41 + 2 * i]));
        i += 1;
    }
    table
}

/// A byte decoded through one of the small decoders above, falling back to
/// the default on unknown bytes.
pub open spec fn nna_of(v: u8) -> NewNoteAction {
    match NewNoteAction::spec_from_byte(v) {
        Ok(a) => a,
        Err(_) => NewNoteAction::Cut,
    }
}

pub open spec fn dct_of(v: u8) -> DuplicateCheckType {
    match DuplicateCheckType::spec_from_byte(v) {
        Ok(a) => a,
        Err(_) => DuplicateCheckType::Off,
    }
}

pub open spec fn dca_of(v: u8) -> DuplicateCheckAction {
    match DuplicateCheckAction::spec_from_byte(v) {
        Ok(a) => a,
        Err(_) => DuplicateCheckAction::Cut,
    }
}

/// The pitch-pan separation byte as a signed value, zeroed out of range.
pub open spec fn pps_of(v: u8) -> i8 {
    let signed = v as i8;
    if -32 <= signed <= 32 {
        signed
    } else {
        0i8
    }
}

/// The default pan byte: 128 disables it, values above 64 fall back to 32.
pub open spec fn instr_pan_of(v: u8) -> Option<u8> {
    if v == 128 {
        None
    } else if v > 64 {
        Some(32u8)
    } else {
        Some(v)
    }
}

/// A percentage byte, clamped to 100.
pub open spec fn percent_of(v: u8) -> u8 {
    if v <= 100 {
        v
    } else {
        100
    }
}

/// Everything one instrument header carries.
#[derive(Debug)]
pub struct ImpulseInstrument {
    /// The stored short file name, always twelve bytes.
    pub dos_file_name: Vec<u8>,
    pub new_note_action: NewNoteAction,
    pub duplicate_check_type: DuplicateCheckType,
    pub duplicate_check_action: DuplicateCheckAction,
    pub fade_out: u16,
    pub pitch_pan_separation: i8,
    pub pitch_pan_center: u8,
    pub global_volume: u8,
    pub default_pan: Option<u8>,
    pub random_volume: u8,
    pub random_pan: u8,
    pub created_with: u16,
    pub number_of_samples: u8,
    /// Instrument name bytes, up to the first zero byte; empty if not UTF-8.
    pub name: Vec<u8>,
    pub initial_filter_cutoff: u8,
    pub initial_filter_resonance: u8,
    pub midi_channel: u8,
    pub midi_program: u8,
    pub midi_bank: u16,
    /// Always 120 entries of (note, sample).
    pub note_sample_table: Vec<(u8, u8)>,
    pub volume_envelope: ImpulseEnvelope,
    pub pan_envelope: ImpulseEnvelope,
    pub pitch_envelope: ImpulseEnvelope,
}

impl ImpulseInstrument {
    /// Decode an instrument header from its first `INSTRUMENT_SIZE` bytes.
    /// Out-of-range values are repaired and reported in `defects`.
    #[verifier::rlimit(100)]
    #[verifier::spinoff_prover]
    pub fn parse(buf: &[u8], defects: &mut Vec<LoadDefect>) -> (r: Result<
        ImpulseInstrument,
        LoadErr,
    >)
        requires
            buf@.len() >= INSTRUMENT_SIZE,
        ensures
            old(defects)@.is_prefix_of(final(defects)@),
            !instrument_magic_ok(buf@) ==> r == Err::<ImpulseInstrument, LoadErr>(
                LoadErr::Invalid,
            ),
            instrument_magic_ok(buf@) && buf@[10] != 0 ==> r == Err::<ImpulseInstrument, LoadErr>(
                LoadErr::Invalid,
            ),
            instrument_magic_ok(buf@) && buf@[10] == 0 ==> (r matches Ok(h) && {
                let b = buf@;
                &&& h.dos_file_name@ == b.subrange(0x4, 0x10)
                &&& h.new_note_action == nna_of(b[0x11])
                &&& h.duplicate_check_type == dct_of(b[0x12])
                &&& h.duplicate_check_action == dca_of(b[0x13])
                &&& h.fade_out == le16(b, 0x14)
                &&& h.pitch_pan_separation == pps_of(b[0x16])
                &&& h.pitch_pan_center == (if b[0x17] <= 119 {
                    b[0x17]
                } else {
                    59u8
                })
                &&& h.global_volume == (if b[0x18] <= 128 {
                    b[0x18]
                } else {
                    64u8
                })
                &&& h.default_pan == instr_pan_of(b[0x19])
                &&& h.random_volume == percent_of(b[0x1A])
                &&& h.random_pan == percent_of(b[0x1B])
                &&& h.created_with == le16(b, 0x1C)
                &&& h.number_of_samples == b[0x1E]
                &&& (is_utf8(instrument_name_span(b)) ==> h.name@ == instrument_name_span(b))
                &&& (!is_utf8(instrument_name_span(b)) ==> h.name@.len() == 0)
                &&& h.initial_filter_cutoff == b[0x3A]
                &&& h.initial_filter_resonance == b[0x3B]
                &&& h.midi_channel == b[0x3C]
                &&& h.midi_program == b[0x3D]
                &&& h.midi_bank == le16(b, 0x3E)
                &&& h.note_sample_table@.len() == 120
                &&& forall|i: int|
                    0 <= i < 120 ==> #[trigger] h.note_sample_table@[i] == (
                    b[0x40 + 2 * i],
                    b[0x41 + 2 * i],
                )
            }),
    {
        if !(buf[0] == 0x49 && buf[1] == 0x4D && buf[2] == 0x50 && buf[3] == 0x49) {
            return Err(LoadErr::Invalid);
        }
        if buf[10] != 0 {
            return Err(LoadErr::Invalid);
        }
        let dos_file_name = crate::file_format::header::read_bytes(buf, 0x4, 0x10);
        let new_note_action = read_nna(buf, 0x11, defects);
        let duplicate_check_type = read_dct(buf, 0x12, defects);
        let duplicate_check_action = read_dca(buf, 0x13, defects);
        let fade_out = read_le16(buf, 0x14);
        let pitch_pan_separation = read_pps(buf, 0x16, defects);
        let pitch_pan_center = crate::file_format::header::byte_clamped(
            buf,
            0x17,
            119,
            59,
            defects,
        );
        let global_volume = crate::file_format::header::byte_clamped(buf, 0x18, 128, 64, defects);
        let default_pan = read_instr_pan(buf, 0x19, defects);
        let random_volume = crate::file_format::header::byte_clamped(
            buf,
            0x1A,
            100,
            100,
            defects,
        );
        let random_pan = crate::file_format::header::byte_clamped(buf, 0x1B, 100, 100, defects);
        let created_with = read_le16(buf, 0x1C);
        let number_of_samples = buf[0x1E];
        let name = crate::file_format::header::read_nul_utf8(buf, 0x20, 0x3A, defects);
        let initial_filter_cutoff = buf[0x3A];
        let initial_filter_resonance = buf[0x3B];
        let midi_channel = buf[0x3C];
        let midi_program = buf[0x3D];
        let midi_bank = read_le16(buf, 0x3E);
        let note_sample_table = read_note_sample_table(buf);
        let volume_envelope = ImpulseEnvelope::load(buf, 0x130);
        let pan_envelope = ImpulseEnvelope::load(buf, 0x182);
        let pitch_envelope = ImpulseEnvelope::load(buf, 0x1D4);

        Ok(
            ImpulseInstrument {
                dos_file_name,
                new_note_action,
                duplicate_check_type,
                duplicate_check_action,
                fade_out,
                pitch_pan_separation,
                pitch_pan_center,
                global_volume,
                default_pan,
                random_volume,
                random_pan,
                created_with,
                number_of_samples,
                name,
                initial_filter_cutoff,
                initial_filter_resonance,
                midi_channel,
                midi_program,
                midi_bank,
                note_sample_table,
                volume_envelope,
                pan_envelope,
                pitch_envelope,
            },
        )
    }

    /// Decode an instrument header, checking the buffer's length first.
    pub fn load(buf: &[u8], defects: &mut Vec<LoadDefect>) -> (r: Result<
        ImpulseInstrument,
        LoadErr,
    >)
        ensures
            old(defects)@.is_prefix_of(final(defects)@),
            buf@.len() < INSTRUMENT_SIZE ==> r == Err::<ImpulseInstrument, LoadErr>(
                LoadErr::BufferTooShort,
            ),
    {
        if buf.len() < INSTRUMENT_SIZE {
            return Err(LoadErr::BufferTooShort);
        }
        ImpulseInstrument::parse(buf, defects)
    }
}

} // verus!
