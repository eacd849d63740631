//! A voice: one playing instance of a sample, advanced by a fixed-point
//! phase accumulator so that positions stay exact integers.

use vstd::prelude::*;

use crate::note_event::Note;
use crate::sample::{Sample, SampleMetaData, PAD_SIZE_EACH};

verus! {

/// One unit of the integer position, as fractional fixed-point steps.
pub const PHASE_ONE: u64 = 0x1_0000_0000;

/// Largest step a voice will take per output frame: over sixteen million
/// sample frames, enough to cross any sample in one step.
pub const STEP_MAX: u64 = 0x100_0000_0000_0000;

/// Which interpolation kernel a mixer applies over the taps.
#[derive(Debug, Clone, Copy, PartialEq, Eq, Structural)]
pub enum Interpolation {
    Nearest,
    Linear,
}

impl Interpolation {
    /// Pad frames each kernel needs on both sides of a tap.
    pub fn pad_needed(&self) -> (r: usize)
        ensures
            r == 1,
    {
        match self {
            Interpolation::Nearest => 1,
            Interpolation::Linear => 1,
        }
    }

    /// The kernel a selector byte names. Only 0 and 1 are assigned.
    pub fn from_u8(value: u8) -> (r: Self)
        requires
            value <= 1,
        ensures
            value == 0 ==> r == Interpolation::Nearest,
            value == 1 ==> r == Interpolation::Linear,
    {
        match value {
            0 => Interpolation::Nearest,
            _ => Interpolation::Linear,
        }
    }
}

/// One output position of a voice: the integer frame index and the
/// fraction (in units of 2^-32) toward the next frame.
#[derive(Debug, Clone, Copy, PartialEq, Eq, Structural)]
pub struct VoiceTap {
    pub index: usize,
    pub frac: u32,
}

/// The exact ratio table for the twelve semitones, in units of 2^-32.
pub open spec fn semitone_fp(rem: int) -> u64 {
    if rem == 0 {
        4294967296u64
    } else if rem == 1 {
        4550359342u64
    } else if rem == 2 {
        4820937788u64
    } else if rem == 3 {
        5107605667u64
    } else if rem == 4 {
        5411319705u64
    } else if rem == 5 {
        5733093519u64
    } else if rem == 6 {
        6074001000u64
    } else if rem == 7 {
        6435179895u64
    } else if rem == 8 {
        6817835604u64
    } else if rem == 9 {
        7223245206u64
    } else if rem == 10 {
        7652761717u64
    } else {
        8107818609u64
    }
}

/// `x` doubled `n` times; a value already past half the 64-bit range
/// stays put (never reached for note data).
pub open spec fn doubled(x: int, n: nat) -> int
    decreases n,
{
    if n == 0 {
        x
    } else {
        let d = doubled(x, (n - 1) as nat);
        if d <= 0x8000_0000_0000_0000 {
            2 * d
        } else {
            d
        }
    }
}

/// `x` halved `n` times, never falling below 1.
pub open spec fn halved(x: int, n: nat) -> int
    decreases n,
{
    if n == 0 {
        x
    } else {
        let h = halved(x, (n - 1) as nat);
        if h >= 2 {
            h / 2
        } else {
            h
        }
    }
}

/// One doubling step, by definition.
proof fn lemma_doubled_unfold(x: int, n: nat)
    requires
        n >= 1,
    ensures
        doubled(x, n) == (if doubled(x, (n - 1) as nat) <= 0x8000_0000_0000_0000 {
            2 * doubled(x, (n - 1) as nat)
        } else {
            doubled(x, (n - 1) as nat)
        }),
{
}

/// One halving step, by definition.
proof fn lemma_halved_unfold(x: int, n: nat)
    requires
        n >= 1,
    ensures
        halved(x, n) == (if halved(x, (n - 1) as nat) >= 2 {
            halved(x, (n - 1) as nat) / 2
        } else {
            halved(x, (n - 1) as nat)
        }),
{
}

/// The exact fixed-point step for playing `note` against the reference
/// `base` at the given rates: the semitone ratio of the note distance,
/// shifted by whole octaves, scaled by the rate ratio and clamped into
/// [1, `STEP_MAX`].
pub open spec fn spec_step_size(in_rate: u32, out_rate: u32, base: Note, note: Note) -> u64 {
    let shifted = note.value + 240 - base.value;
    let oct = shifted / 12;
    let rem = shifted % 12;
    let wide = if oct >= 20 {
        doubled(semitone_fp(rem) as int, (oct - 20) as nat)
    } else {
        halved(semitone_fp(rem) as int, (20 - oct) as nat)
    };
    let scaled = wide * (out_rate as int) / (in_rate as int);
    if scaled < 1 {
        1u64
    } else if scaled > STEP_MAX {
        STEP_MAX
    } else {
        scaled as u64
    }
}

/// A playing sample: the handle, what pitch to play it at, and the phase.
#[derive(Debug)]
pub struct SamplePlayer {
    pub sample: Sample,
    pub meta: SampleMetaData,
    pub note: Note,
    /// Integer frame position; starts at the left pad and never decreases.
    pub int_pos: usize,
    /// Fraction toward the next frame, in units of 2^-32.
    pub frac: u32,
    /// Output frames per second; kept above zero.
    pub out_rate: u32,
    /// Position advance per output frame, in units of 2^-32.
    pub step_size: u64,
}

impl SamplePlayer {
    /// The phase as one number, in units of 2^-32.
    pub open spec fn phase(self) -> int {
        self.int_pos * PHASE_ONE + self.frac
    }

    /// Structural invariant of a live voice.
    pub open spec fn wf(self) -> bool {
        &&& self.sample.wf()
        &&& self.meta.wf()
        &&& self.note.wf()
        &&& self.out_rate >= 1
        &&& 1 <= self.step_size <= STEP_MAX
        &&& PAD_SIZE_EACH <= self.int_pos <= self.sample.spec_len_with_pad()
    }

    /// Whether the voice has passed the last payload frame.
    pub open spec fn spec_done(self) -> bool {
        self.int_pos >= self.sample.spec_len_with_pad() - PAD_SIZE_EACH
    }

    /// The voice after one phase advance: the step is added to the phase,
    /// or the voice parks at the buffer's end when the sum passes it.
    pub open spec fn spec_stepped(self) -> SamplePlayer {
        let total = self.frac + self.step_size;
        let len = self.sample.spec_len_with_pad();
        if self.int_pos * PHASE_ONE + total >= len * PHASE_ONE {
            SamplePlayer { int_pos: len as usize, frac: 0u32, ..self }
        } else {
            SamplePlayer {
                int_pos: (self.int_pos + total / (PHASE_ONE as int)) as usize,
                frac: (total % (PHASE_ONE as int)) as u32,
                ..self
            }
        }
    }

    /// Start a voice at the left pad of `sample`.
    pub fn new(sample: Sample, meta: SampleMetaData, out_rate: u32, note: Note) -> (r:
        SamplePlayer)
        requires
            sample.wf(),
            meta.wf(),
            note.wf(),
            out_rate >= 1,
        ensures
            r.wf(),
            r.sample == sample,
            r.meta == meta,
            r.note == note,
            r.out_rate == out_rate,
            r.int_pos == PAD_SIZE_EACH,
            r.frac == 0u32,
            sample.spec_len_with_pad() > 2 * PAD_SIZE_EACH ==> !r.spec_done(),
            r.step_size == spec_step_size(meta.sample_rate, out_rate, meta.base_note, note),
            meta.base_note == note && out_rate == meta.sample_rate ==> r.step_size
                == PHASE_ONE,
    {
        let step_size = compute_step_size(meta.sample_rate, out_rate, meta.base_note, note);
        SamplePlayer {
            sample,
            meta,
            note,
            int_pos: PAD_SIZE_EACH,
            frac: 0,
            out_rate,
            step_size,
        }
    }

    /// Whether the voice has passed the last payload frame.
    pub fn check_position(&self) -> (r: bool)
        requires
            self.wf(),
        ensures
            r == self.spec_done(),
    {
        self.int_pos >= self.sample.len_with_pad() - PAD_SIZE_EACH
    }

    /// Change the output rate, recomputing the step; the phase stays.
    pub fn set_out_samplerate(&mut self, samplerate: u32)
        requires
            old(self).wf(),
            samplerate >= 1,
        ensures
            final(self).wf(),
            final(self).out_rate == samplerate,
            final(self).int_pos == old(self).int_pos,
            final(self).frac == old(self).frac,
            final(self).sample == old(self).sample,
            final(self).meta == old(self).meta,
            final(self).note == old(self).note,
            final(self).step_size == spec_step_size(
                old(self).meta.sample_rate,
                samplerate,
                old(self).meta.base_note,
                old(self).note,
            ),
    {
        self.out_rate = samplerate;
        self.step_size = compute_step_size(
            self.meta.sample_rate,
            self.out_rate,
            self.meta.base_note,
            self.note,
        );
    }

    /// Emit one tap and advance the phase. A finished voice emits nothing
    /// and stays as it is. The integer position never decreases, and when
    /// the sum stays inside the sample, the new phase is exactly the old
    /// phase plus the step.
    pub fn next(&mut self) -> (r: Option<VoiceTap>)
        requires
            old(self).wf(),
        ensures
            final(self).wf(),
            final(self).sample == old(self).sample,
            final(self).meta == old(self).meta,
            final(self).note == old(self).note,
            final(self).out_rate == old(self).out_rate,
            final(self).step_size == old(self).step_size,
            final(self).int_pos >= old(self).int_pos,
            final(self).frac < PHASE_ONE,
            old(self).spec_done() ==> r is None && *final(self) == *old(self),
            !old(self).spec_done() ==> r == Some(
                VoiceTap { index: old(self).int_pos, frac: old(self).frac },
            ),
            !old(self).spec_done() ==> *final(self) == old(self).spec_stepped(),
            !old(self).spec_done() && old(self).phase() + old(self).step_size
                <= old(self).sample.spec_len_with_pad() * PHASE_ONE ==> final(self).phase()
                == old(self).phase() + old(self).step_size,
            !old(self).spec_done() && old(self).phase() + old(self).step_size
                > old(self).sample.spec_len_with_pad() * PHASE_ONE ==> final(self).int_pos
                == old(self).sample.spec_len_with_pad() && final(self).spec_done(),
            r matches Some(t) ==> PAD_SIZE_EACH <= t.index
                < old(self).sample.spec_len_with_pad() - PAD_SIZE_EACH,
    {
        if self.check_position() {
            return None;
        }
        let ghost p0 = *self;
        let tap = VoiceTap { index: self.int_pos, frac: self.frac };
        let len = self.sample.len_with_pad();
        let total: u64 = self.frac as u64 + self.step_size;
        let whole: u64 = total / (0x1_0000_0000u64);
        let new_frac: u64 = total % (0x1_0000_0000u64);
        proof {
            let tot = total as int;
            let wh = whole as int;
            let nf = new_frac as int;
            assert(tot == wh * 0x1_0000_0000 + nf && 0 <= nf < 0x1_0000_0000 && 0 <= wh
                <= tot / 0x1_0000_0000) by (nonlinear_arith)
                requires
                    wh == tot / 0x1_0000_0000,
                    nf == tot % 0x1_0000_0000,
                    tot >= 0,
            ;
        }
        if whole >= (len - self.int_pos) as u64 {
            // past the end: park at the end, which counts as finished
            self.int_pos = len;
            self.frac = 0;
            proof {
                let p = 0x1_0000_0000int;
                let ip0 = p0.int_pos as int;
                let l = len as int;
                let wh = whole as int;
                let nf = new_frac as int;
                assert(ip0 * p + wh * p + nf >= l * p) by (nonlinear_arith)
                    requires
                        ip0 + wh >= l,
                        nf >= 0,
                        p > 0,
                        ip0 >= 0,
                ;
                assert(p0.phase() + p0.step_size == ip0 * p + wh * p + nf) by (nonlinear_arith)
                    requires
                        p0.phase() == ip0 * p + p0.frac,
                        p0.frac + p0.step_size == wh * p + nf,
                ;
                if p0.phase() + p0.step_size <= l * p {
                    // the sum lands exactly on the end: parking is exact
                    assert(self.phase() == l * p);
                    assert(p0.phase() + p0.step_size == l * p);
                }
                assert(ip0 * p + (p0.frac + p0.step_size) >= l * p);
                assert(*self == p0.spec_stepped());
            }
        } else {
            self.int_pos = self.int_pos + whole as usize;
            self.frac = new_frac as u32;
            proof {
                let p = 0x1_0000_0000int;
                let ip0 = p0.int_pos as int;
                let l = len as int;
                let wh = whole as int;
                let nf = new_frac as int;
                assert(self.phase() == p0.phase() + p0.step_size) by (nonlinear_arith)
                    requires
                        self.phase() == (ip0 + wh) * p + nf,
                        p0.phase() == ip0 * p + p0.frac,
                        p0.frac + p0.step_size == wh * p + nf,
                ;
                assert(self.phase() < l * p) by (nonlinear_arith)
                    requires
                        self.phase() == (ip0 + wh) * p + nf,
                        ip0 + wh <= l - 1,
                        0 <= nf < p,
                ;
                assert(ip0 * p + (p0.frac + p0.step_size) < l * p) by (nonlinear_arith)
                    requires
                        self.phase() == p0.phase() + p0.step_size,
                        self.phase() < l * p,
                        p0.phase() == ip0 * p + p0.frac,
                ;
                assert(*self == p0.spec_stepped());
            }
        }
        Some(tap)
    }
}

/// The fixed-point step for playing `playing_note` on a sample recorded at
/// `in_rate` with reference `sample_base_note`, at output rate `out_rate`:
/// the semitone ratio scaled by the rate ratio, kept within 1 and
/// `STEP_MAX`. Playing the reference note at the recording rate advances
/// exactly one frame per output frame.
pub fn compute_step_size(in_rate: u32, out_rate: u32, sample_base_note: Note, playing_note: Note)
    -> (r: u64)
    requires
        in_rate >= 1,
        out_rate >= 1,
        sample_base_note.wf(),
        playing_note.wf(),
    ensures
        r == spec_step_size(in_rate, out_rate, sample_base_note, playing_note),
        1 <= r <= STEP_MAX,
        playing_note == sample_base_note && out_rate == in_rate ==> r == PHASE_ONE,
{
    // work at d + 240 so the twelve-fold splitting stays non-negative
    let shifted: u32 = playing_note.get() as u32 + 240 - sample_base_note.get() as u32;
    let oct_shifted: u32 = shifted / 12;
    let rem: u32 = shifted % 12;
    let ratio: u64 = semitone_lookup(rem);
    proof {
        assert(shifted == playing_note.value + 240 - sample_base_note.value);
        if playing_note == sample_base_note {
            assert(shifted == 240);
            assert(oct_shifted == 20 && rem == 0);
        }
    }
    // apply the octave: double or halve away from the midpoint of 20
    let mut wide: u128 = ratio as u128;
    proof {
        assert(doubled(ratio as int, 0) == ratio as int);
        assert(halved(ratio as int, 0) == ratio as int);
    }
    let mut up: u32 = 20;
    while up < oct_shifted
        invariant
            20 <= up,
            oct_shifted >= 20 ==> up <= oct_shifted,
            oct_shifted <= 40,
            ratio == semitone_fp(rem as int),
            1 <= wide <= 0x1_0000_0000_0000_0000u128,
            oct_shifted >= 20 ==> wide as int == doubled(ratio as int, (up - 20) as nat),
            oct_shifted < 20 ==> wide == ratio && up == 20,
        decreases oct_shifted - up,
    {
        let ghost pre = wide as int;
        if wide <= 0x8000_0000_0000_0000u128 {
            wide = wide * 2;
        }
        up += 1;
        proof {
            lemma_doubled_unfold(ratio as int, (up - 20) as nat);
            assert(((up - 20) as nat - 1) as nat == (up - 21) as nat);
            assert(doubled(ratio as int, (up - 21) as nat) == pre);
        }
    }
    let mut down: u32 = if oct_shifted < 20 {
        oct_shifted
    } else {
        20
    };
    while down < 20
        invariant
            down <= 20,
            oct_shifted < 20 ==> oct_shifted <= down,
            ratio == semitone_fp(rem as int),
            1 <= wide <= 0x1_0000_0000_0000_0000u128,
            oct_shifted >= 20 ==> (wide as int == doubled(ratio as int, (oct_shifted - 20) as nat)
                && down == 20),
            oct_shifted < 20 ==> wide as int == halved(ratio as int, (down - oct_shifted) as nat),
        decreases 20 - down,
    {
        let ghost pre = wide as int;
        if wide >= 2 {
            wide = wide / 2;
        }
        down += 1;
        proof {
            lemma_halved_unfold(ratio as int, (down - oct_shifted) as nat);
            assert(((down - oct_shifted) as nat - 1) as nat == (down - 1
                - oct_shifted) as nat);
            assert(halved(ratio as int, (down - 1 - oct_shifted) as nat) == pre);
        }
    }
    proof {
        assert(wide * (out_rate as int) <= 0x1_0000_0000_0000_0000 * 0xFFFF_FFFF) by (
        nonlinear_arith)
            requires
                1 <= wide <= 0x1_0000_0000_0000_0000u128,
                out_rate <= 0xFFFF_FFFFu32,
        ;
    }
    let scaled: u128 = wide * (out_rate as u128) / (in_rate as u128);
    proof {
        if oct_shifted == 20 && out_rate == in_rate {
            assert(wide * (out_rate as int) / (in_rate as int) == wide) by (nonlinear_arith)
                requires
                    in_rate >= 1,
                    out_rate == in_rate,
                    1 <= wide <= 0x1_0000_0000_0000_0000u128,
            ;
        }
    }
    if scaled < 1 {
        1
    } else if scaled > STEP_MAX as u128 {
        STEP_MAX
    } else {
        scaled as u64
    }
}

/// Look one semitone ratio up.
fn semitone_lookup(rem: u32) -> (r: u64)
    requires
        rem < 12,
    ensures
        r == semitone_fp(rem as int),
        0x1_0000_0000u64 <= r <= 0x2_0000_0000u64,
{
    if rem == 0 {
        4294967296
    } else if rem == 1 {
        4550359342
    } else if rem == 2 {
        4820937788
    } else if rem == 3 {
        5107605667
    } else if rem == 4 {
        5411319705
    } else if rem == 5 {
        5733093519
    } else if rem == 6 {
        6074001000
    } else if rem == 7 {
        6435179895
    } else if rem == 8 {
        6817835604
    } else if rem == 9 {
        7223245206
    } else if rem == 10 {
        7652761717
    } else {
        8107818609
    }
}

/// Voice exhaustion, stated whole: a fresh voice (phase at the left pad)
/// stays short of the payload's end for each of the first
/// floor(payload·2^32 / step) steps — so by `next`'s contract every one of
/// those calls emits a frame — and once the accumulated steps pass the
/// payload, the voice is done and every further call returns nothing.
pub proof fn lemma_voice_emits_at_least(len_pad: int, step: int)
    requires
        step >= 1,
        len_pad >= 2 * PAD_SIZE_EACH,
    ensures
        forall|k: int|
            0 <= k < (len_pad - 2 * PAD_SIZE_EACH) * PHASE_ONE / step
                ==> PAD_SIZE_EACH * PHASE_ONE + #[trigger] (k * step) < (len_pad
                - PAD_SIZE_EACH) * PHASE_ONE,
        forall|k: int|
            0 <= k && #[trigger] (k * step) >= (len_pad - 2 * PAD_SIZE_EACH) * PHASE_ONE
                ==> PAD_SIZE_EACH * PHASE_ONE + k * step >= (len_pad - PAD_SIZE_EACH)
                * PHASE_ONE,
{
    assert forall|k: int|
        0 <= k < (len_pad - 2 * PAD_SIZE_EACH) * PHASE_ONE / step implies PAD_SIZE_EACH
        * PHASE_ONE + #[trigger] (k * step) < (len_pad - PAD_SIZE_EACH) * PHASE_ONE by {
        lemma_voice_exhaustion(len_pad, step, k);
    }
    assert forall|k: int|
        0 <= k && #[trigger] (k * step) >= (len_pad - 2 * PAD_SIZE_EACH) * PHASE_ONE implies
        PAD_SIZE_EACH * PHASE_ONE + k * step >= (len_pad - PAD_SIZE_EACH) * PHASE_ONE by {
        lemma_voice_exhaustion(len_pad, step, k);
    }
}

/// Voice exhaustion, arithmetically: a fresh voice starts its phase at the
/// left pad; as long as fewer than `floor(payload · 2^32 / step)` steps
/// have been taken, the voice has not passed the last playable frame, so
/// each of those calls emits a frame; and once the steps sum past the
/// payload the voice is done, so it terminates.
pub proof fn lemma_voice_exhaustion(len_pad: int, step: int, k: int)
    requires
        step >= 1,
        len_pad >= 2 * PAD_SIZE_EACH,
        0 <= k,
    ensures
        k * step < (len_pad - 2 * PAD_SIZE_EACH) * PHASE_ONE ==> PAD_SIZE_EACH * PHASE_ONE + k
            * step < (len_pad - PAD_SIZE_EACH) * PHASE_ONE,
        k < (len_pad - 2 * PAD_SIZE_EACH) * PHASE_ONE / step ==> k * step < (len_pad - 2
            * PAD_SIZE_EACH) * PHASE_ONE,
        k * step >= (len_pad - 2 * PAD_SIZE_EACH) * PHASE_ONE ==> PAD_SIZE_EACH * PHASE_ONE + k
            * step >= (len_pad - PAD_SIZE_EACH) * PHASE_ONE,
{
    let payload = len_pad - 2 * PAD_SIZE_EACH;
    if k < payload * PHASE_ONE / step {
        assert(k * step < payload * PHASE_ONE) by (nonlinear_arith)
            requires
                step >= 1,
                0 <= k,
                payload >= 0,
                k < payload * PHASE_ONE / step,
        ;
    }
    assert(PAD_SIZE_EACH * PHASE_ONE + payload * PHASE_ONE == (len_pad - PAD_SIZE_EACH)
        * PHASE_ONE) by (nonlinear_arith)
        requires
            payload == len_pad - 2 * PAD_SIZE_EACH,
    ;
}

} // verus!
