//! The per-sample header of the module format.

use vstd::prelude::*;

use crate::file_format::err::{LoadDefect, LoadErr};
use crate::file_format::header::{le32, read_le32, InFilePtr};
use crate::sample::VibratoWave;

verus! {

/// Fixed size of a sample header.
pub const SAMPLE_HEADER_SIZE: usize = 80;

/// The sample conversion byte, read bit by bit.
#[derive(Debug, Clone, Copy, PartialEq, Eq, Structural)]
pub struct SampleFormatConvert(pub u8);

impl SampleFormatConvert {
    /// Sample words are signed.
    pub fn samples_signed(&self) -> (r: bool)
        ensures
            r == ((self.0 & 0x1) != 0),
    {
        (self.0 & 0x1) != 0
    }

    /// Sample words are big endian; only very old files set this.
    pub fn is_big_endian(&self) -> (r: bool)
        ensures
            r == ((self.0 & 0x2) != 0),
    {
        (self.0 & 0x2) != 0
    }

    /// Sample words are stored as deltas rather than plain PCM.
    pub fn delta_samples(&self) -> (r: bool)
        ensures
            r == ((self.0 & 0x4) != 0),
    {
        (self.0 & 0x4) != 0
    }

    /// Twelve-bit waveform data.
    pub fn tx_wave_12bit(&self) -> (r: bool)
        ensures
            r == ((self.0 & 0x8) != 0),
    {
        (self.0 & 0x8) != 0
    }

    /// A prompt about stereo handling applies.
    pub fn should_show_stereo_prompt(&self) -> (r: bool)
        ensures
            r == ((self.0 & 0x10) != 0),
    {
        (self.0 & 0x10) != 0
    }
}

/// The sample flag byte, read bit by bit.
#[derive(Debug, Clone, Copy, PartialEq, Eq, Structural)]
pub struct SampleFormatFlags(pub u8);

impl SampleFormatFlags {
    /// A sample body exists.
    pub fn has_sample(&self) -> (r: bool)
        ensures
            r == ((self.0 & 0x01) != 0),
    {
        (self.0 & 0x01) != 0
    }

    /// Sixteen-bit sample words.
    pub fn is_16bit(&self) -> (r: bool)
        ensures
            r == ((self.0 & 0x02) != 0),
    {
        (self.0 & 0x02) != 0
    }

    /// Eight-bit sample words.
    pub fn is_8bit(&self) -> (r: bool)
        ensures
            r == ((self.0 & 0x02) == 0),
    {
        !self.is_16bit()
    }

    /// Two channels.
    pub fn is_steroe(&self) -> (r: bool)
        ensures
            r == ((self.0 & 0x04) != 0),
    {
        (self.0 & 0x04) != 0
    }

    /// The body is stored compressed.
    pub fn is_compressed(&self) -> (r: bool)
        ensures
            r == ((self.0 & 0x08) != 0),
    {
        (self.0 & 0x08) != 0
    }

    /// The loop points are in use.
    pub fn uses_loop(&self) -> (r: bool)
        ensures
            r == ((self.0 & 0x10) != 0),
    {
        (self.0 & 0x10) != 0
    }

    /// The sustain loop points are in use.
    pub fn uses_sustain_loop(&self) -> (r: bool)
        ensures
            r == ((self.0 & 0x20) != 0),
    {
        (self.0 & 0x20) != 0
    }

    /// The loop runs back and forth.
    pub fn ping_pong_loop(&self) -> (r: bool)
        ensures
            r == ((self.0 & 0x40) != 0),
    {
        (self.0 & 0x40) != 0
    }

    /// The loop runs forward only.
    pub fn forward_loop(&self) -> (r: bool)
        ensures
            r == ((self.0 & 0x40) == 0),
    {
        !self.ping_pong_loop()
    }

    /// The sustain loop runs back and forth.
    pub fn ping_pong_sustain_loop(&self) -> (r: bool)
        ensures
            r == ((self.0 & 0x80) != 0),
    {
        (self.0 & 0x80) != 0
    }

    /// The sustain loop runs forward only.
    pub fn forward_sustain_loop(&self) -> (r: bool)
        ensures
            r == ((self.0 & 0x80) == 0),
    {
        !self.ping_pong_sustain_loop()
    }
}

/// A speed byte of the vibrato block: out-of-range bytes fall back to 32.
pub open spec fn vib_byte(v: u8) -> u8 {
    if v <= 64 {
        v
    } else {
        32
    }
}

/// The vibrato waveform byte; unknown bytes fall back to the default.
pub open spec fn vib_wave_of(v: u8) -> VibratoWave {
    match VibratoWave::spec_from_byte(v) {
        Ok(w) => w,
        Err(_) => VibratoWave::Sine,
    }
}

/// A sample rate word; out-of-range words fall back to half the cap.
pub open spec fn c5_of(v: u32) -> u32 {
    if v <= 9999999 {
        v
    } else {
        9999999u32 / 2
    }
}

/// The sample header starts with its magic bytes.
pub open spec fn sample_magic_ok(b: Seq<u8>) -> bool {
    b[0] == 0x49u8 && b[1] == 0x4Du8 && b[2] == 0x50u8 && b[3] == 0x53u8
}

/// Everything one sample header carries.
#[derive(Debug)]
pub struct ImpulseSampleHeader {
    /// The stored short file name, always twelve bytes.
    pub dos_filename: Vec<u8>,
    /// Sample name bytes, up to the first zero byte; empty if not UTF-8.
    pub sample_name: Vec<u8>,
    pub global_volume: u8,
    pub flags: SampleFormatFlags,
    pub default_volume: u8,
    pub convert: SampleFormatConvert,
    pub default_pan: u8,
    /// Body length in sample words, not bytes.
    pub length: u32,
    pub loop_start: u32,
    pub loop_end: u32,
    /// Sample words per second when playing the reference note.
    pub c5_speed: u32,
    pub sustain_start: u32,
    pub sustain_end: u32,
    /// Where the body sits in the file; always past the fixed header.
    pub data_ptr: InFilePtr,
    pub vibrato_speed: u8,
    pub vibrato_depth: u8,
    pub vibrato_type: VibratoWave,
    pub vibrato_rate: u8,
}

impl ImpulseSampleHeader {
    /// Decode a sample header from its first `SAMPLE_HEADER_SIZE` bytes.
    /// Out-of-range values are repaired and reported in `defects`.
    pub fn parse(buf: &[u8], defects: &mut Vec<LoadDefect>) -> (r: Result<
        ImpulseSampleHeader,
        LoadErr,
    >)
        requires
            buf@.len() >= SAMPLE_HEADER_SIZE,
        ensures
            old(defects)@.is_prefix_of(final(defects)@),
            !sample_magic_ok(buf@) ==> r == Err::<ImpulseSampleHeader, LoadErr>(LoadErr::Invalid),
            sample_magic_ok(buf@) && buf@[0x10] != 0 ==> r == Err::<ImpulseSampleHeader, LoadErr>(
                LoadErr::Invalid,
            ),
            sample_magic_ok(buf@) && buf@[0x10] == 0 && le32(buf@, 0x48) < 192 ==> r
                == Err::<ImpulseSampleHeader, LoadErr>(LoadErr::Invalid),
            sample_magic_ok(buf@) && buf@[0x10] == 0 && le32(buf@, 0x48) >= 192 ==> (
            r matches Ok(h) && {
                let b = buf@;
                &&& h.dos_filename@ == b.subrange(0x4, 0x10)
                &&& (crate::file_format::header::is_utf8(sample_name_span(b))
                    ==> h.sample_name@ == sample_name_span(b))
                &&& (!crate::file_format::header::is_utf8(sample_name_span(b))
                    ==> h.sample_name@.len() == 0)
                &&& h.global_volume == vib_byte_64_default(b[0x11])
                &&& h.flags == SampleFormatFlags(b[0x12])
                &&& h.default_volume == b[0x13]
                &&& h.convert == SampleFormatConvert(b[0x2E])
                &&& h.default_pan == b[0x2F]
                &&& h.length == le32(b, 0x30)
                &&& h.loop_start == le32(b, 0x34)
                &&& h.loop_end == le32(b, 0x38)
                &&& h.c5_speed == c5_of(le32(b, 0x3C))
                &&& h.sustain_start == le32(b, 0x40)
                &&& h.sustain_end == le32(b, 0x44)
                &&& h.data_ptr == InFilePtr(le32(b, 0x48))
                &&& h.vibrato_speed == vib_byte(b[0x4C])
                &&& h.vibrato_depth == vib_byte(b[0x4D])
                &&& h.vibrato_rate == vib_byte(b[0x4E])
                &&& h.vibrato_type == vib_wave_of(b[0x4F])
            }),
    {
        if !(buf[0] == 0x49 && buf[1] == 0x4D && buf[2] == 0x50 && buf[3] == 0x53) {
            return Err(LoadErr::Invalid);
        }
        if buf[0x10] != 0 {
            return Err(LoadErr::Invalid);
        }

        let mut dos_filename: Vec<u8> = Vec::new();
        let mut i: usize = 0x4;
        while i < 0x10
            invariant
                0x4 <= i <= 0x10,
                buf@.len() >= SAMPLE_HEADER_SIZE,
                dos_filename@ == buf@.subrange(0x4, i as int),
            decreases 0x10 - i,
        {
            dos_filename.push(buf[i]);
            proof {
                assert(dos_filename@ =~= buf@.subrange(0x4, i + 1));
            }
            i += 1;
        }

        let global_volume = if buf[0x11] > 64 {
            defects.push(LoadDefect::OutOfBoundsValue);
            64
        } else {
            buf[0x11]
        };

        let flags = SampleFormatFlags(buf[0x12]);
        let default_volume = buf[0x13];

        let sample_name = {
            let mut name: Vec<u8> = Vec::new();
            let mut i: usize = 0x14;
            while i < 0x2E && buf[i] != 0
                invariant
                    0x14 <= i <= 0x2E,
                    buf@.len() >= SAMPLE_HEADER_SIZE,
                    name@ == buf@.subrange(0x14, i as int),
                    forall|k: int| 0x14 <= k < i ==> buf@[k] != 0u8,
                decreases 0x2E - i,
            {
                name.push(buf[i]);
                proof {
                    assert(name@ =~= buf@.subrange(0x14, i + 1));
                }
                i += 1;
            }
            proof {
                crate::file_format::header::lemma_nul_prefix(
                    buf@.subrange(0x14, 0x2E),
                    i - 0x14,
                );
                assert(buf@.subrange(0x14, 0x2E).take(i - 0x14) =~= buf@.subrange(
                    0x14,
                    i as int,
                ));
            }
            name
        };
        let sample_name = if crate::file_format::header::check_utf8(sample_name.as_slice()) {
            sample_name
        } else {
            defects.push(LoadDefect::InvalidText);
            Vec::new()
        };

        let convert = SampleFormatConvert(buf[0x2E]);
        let default_pan = buf[0x2F];

        let length = read_le32(buf, 0x30);
        let loop_start = read_le32(buf, 0x34);
        let loop_end = read_le32(buf, 0x38);

        let c5_speed = {
            let speed = read_le32(buf, 0x3C);
            if speed > 9999999 {
                defects.push(LoadDefect::OutOfBoundsValue);
                9999999 / 2
            } else {
                speed
            }
        };

        let sustain_start = read_le32(buf, 0x40);
        let sustain_end = read_le32(buf, 0x44);

        let data_ptr = {
            let value = read_le32(buf, 0x48);
            if value < 192 {
                return Err(LoadErr::Invalid);
            }
            InFilePtr(value)
        };

        let vibrato_speed = if buf[0x4C] > 64 {
            defects.push(LoadDefect::OutOfBoundsValue);
            32
        } else {
            buf[0x4C]
        };
        let vibrato_depth = if buf[0x4D] > 64 {
            defects.push(LoadDefect::OutOfBoundsValue);
            32
        } else {
            buf[0x4D]
        };
        let vibrato_rate = if buf[0x4E] > 64 {
            defects.push(LoadDefect::OutOfBoundsValue);
            32
        } else {
            buf[0x4E]
        };
        let vibrato_type = match VibratoWave::try_from(buf[0x4F]) {
            Ok(w) => w,
            Err(_) => {
                defects.push(LoadDefect::OutOfBoundsValue);
                VibratoWave::Sine
            },
        };

        Ok(
            ImpulseSampleHeader {
                dos_filename,
                sample_name,
                global_volume,
                flags,
                default_volume,
                convert,
                default_pan,
                length,
                loop_start,
                loop_end,
                c5_speed,
                sustain_start,
                sustain_end,
                data_ptr,
                vibrato_speed,
                vibrato_depth,
                vibrato_type,
                vibrato_rate,
            },
        )
    }

    /// Decode a sample header, checking the buffer's length first.
    pub fn load(buf: &[u8], defects: &mut Vec<LoadDefect>) -> (r: Result<
        ImpulseSampleHeader,
        LoadErr,
    >)
        ensures
            old(defects)@.is_prefix_of(final(defects)@),
            buf@.len() < SAMPLE_HEADER_SIZE ==> r == Err::<ImpulseSampleHeader, LoadErr>(
                LoadErr::BufferTooShort,
            ),
    {
        if buf.len() < SAMPLE_HEADER_SIZE {
            return Err(LoadErr::BufferTooShort);
        }
        ImpulseSampleHeader::parse(buf, defects)
    }
}

/// The sample name's bytes: what stands before the first zero byte in the
/// header's name field.
pub open spec fn sample_name_span(b: Seq<u8>) -> Seq<u8> {
    let window = b.subrange(0x14, 0x2E);
    window.take(crate::file_format::header::nul_prefix_len(window))
}

/// A volume byte of the sample header: out-of-range bytes fall back to 64.
pub open spec fn vib_byte_64_default(v: u8) -> u8 {
    if v <= 64 {
        v
    } else {
        64
    }
}

} // verus!
