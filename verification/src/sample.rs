//! Immutable PCM sample buffers, shared by handle, padded for interpolation.
//!
//! Sample words are stored as raw 32-bit patterns so that the store can be
//! reasoned about as plain integers; the mixer of the embedding application
//! decides how to interpret them. Silence is the all-zero word, which is
//! also how the pad frames are written.

use vstd::prelude::*;

use std::sync::Arc;

use crate::note_event::Note;

verus! {

/// Frames of silence kept before and after the payload so that every
/// interpolation kernel of radius at most four stays in bounds.
pub const PAD_SIZE_EACH: usize = 4;

/// Largest payload length, in frames.
pub const MAX_LENGTH: usize = 16_000_000;

/// Customary upper bound of sample rates in module files; nothing in this
/// crate demands it, a rate only has to be above zero.
pub const MAX_RATE: usize = 192_000;

/// Error of the sample constructors: more than `MAX_LENGTH` frames.
#[derive(Debug, Clone, Copy, PartialEq, Eq, Structural)]
pub struct SampleTooLarge;

/// An immutable PCM buffer behind a shared handle. Mono samples store one
/// word per frame, stereo samples two interleaved words per frame.
#[derive(Debug)]
pub struct Sample {
    /// Whether each frame is one word (true) or two (false).
    pub mono: bool,
    /// The padded sample words; never written after construction.
    pub data: Arc<Vec<u32>>,
}

impl Sample {
    /// Number of frames, pad included, for contracts.
    pub open spec fn spec_len_with_pad(self) -> int {
        if self.mono {
            self.data@.len() as int
        } else {
            self.data@.len() as int / 2
        }
    }

    /// Structural invariant: padded length in range, stereo data even.
    pub open spec fn wf(self) -> bool {
        &&& !self.mono ==> self.data@.len() % 2 == 0
        &&& self.spec_len_with_pad() >= 2 * PAD_SIZE_EACH
        &&& self.spec_len_with_pad() <= MAX_LENGTH + 2 * PAD_SIZE_EACH
    }

    /// The pad words on both ends hold silence. The constructors establish
    /// this and the buffer is never written afterwards.
    pub open spec fn pads_silent(self) -> bool {
        forall|i: int|
            0 <= i < self.data@.len() && !(PAD_SIZE_EACH * (if self.mono {
                1int
            } else {
                2int
            }) <= i < self.data@.len() - PAD_SIZE_EACH * (if self.mono {
                1int
            } else {
                2int
            })) ==> #[trigger] self.data@[i] == 0u32
    }

    /// Whether the structural invariant holds of this value.
    pub fn is_wf(&self) -> (r: bool)
        ensures
            r == self.wf(),
    {
        let frames = if self.mono {
            self.data.len()
        } else {
            self.data.len() / 2
        };
        let parity_ok = self.mono || self.data.len() % 2 == 0;
        parity_ok && frames >= 2 * PAD_SIZE_EACH && frames <= MAX_LENGTH + 2 * PAD_SIZE_EACH
    }

    /// Build a mono sample, adding `PAD_SIZE_EACH` silent frames on both
    /// sides. Payloads longer than `MAX_LENGTH` frames are refused.
    pub fn new_mono(data: Vec<u32>) -> (r: Result<Sample, SampleTooLarge>)
        ensures
            data@.len() <= MAX_LENGTH ==> (r matches Ok(s) && s.wf() && s.pads_silent()
                && s.mono && s.spec_len_with_pad() == data@.len() + 2 * PAD_SIZE_EACH && forall|
                i: int,
            |
                0 <= i < data@.len() ==> #[trigger] s.data@[i + PAD_SIZE_EACH] == data@[i]),
            data@.len() > MAX_LENGTH ==> r == Err::<Sample, SampleTooLarge>(SampleTooLarge),
    {
        if data.len() > MAX_LENGTH {
            return Err(SampleTooLarge);
        }
        let mut padded: Vec<u32> = Vec::new();
        let mut i: usize = 0;
        while i < PAD_SIZE_EACH
            invariant
                i <= PAD_SIZE_EACH,
                padded@.len() == i,
                forall|k: int| 0 <= k < i ==> #[trigger] padded@[k] == 0u32,
            decreases PAD_SIZE_EACH - i,
        {
            padded.push(0);
            i += 1;
        }
        let mut j: usize = 0;
        while j < data.len()
            invariant
                j <= data@.len(),
                padded@.len() == PAD_SIZE_EACH + j,
                forall|k: int| 0 <= k < PAD_SIZE_EACH ==> #[trigger] padded@[k] == 0u32,
                forall|k: int|
                    0 <= k < j ==> #[trigger] padded@[k + PAD_SIZE_EACH] == data@[k],
            decreases data@.len() - j,
        {
            padded.push(data[j]);
            j += 1;
        }
        let mut t: usize = 0;
        while t < PAD_SIZE_EACH
            invariant
                t <= PAD_SIZE_EACH,
                padded@.len() == PAD_SIZE_EACH + data@.len() + t,
                forall|k: int| 0 <= k < PAD_SIZE_EACH ==> #[trigger] padded@[k] == 0u32,
                forall|k: int|
                    0 <= k < data@.len() ==> #[trigger] padded@[k + PAD_SIZE_EACH] == data@[k],
                forall|k: int|
                    PAD_SIZE_EACH + data@.len() <= k < padded@.len() ==> #[trigger] padded@[k]
                        == 0u32,
            decreases PAD_SIZE_EACH - t,
        {
            padded.push(0);
            t += 1;
        }
        Ok(Sample { mono: true, data: Arc::new(padded) })
    }

    /// Build a stereo sample from interleaved words, adding silent pad
    /// frames on both sides. Payloads longer than `MAX_LENGTH` frames are
    /// refused.
    pub fn new_stereo(data: Vec<u32>) -> (r: Result<Sample, SampleTooLarge>)
        requires
            data@.len() % 2 == 0,
        ensures
            data@.len() <= 2 * MAX_LENGTH ==> (r matches Ok(s) && s.wf() && s.pads_silent()
                && !s.mono && s.spec_len_with_pad() == data@.len() / 2 + 2 * PAD_SIZE_EACH
                && forall|i: int|
                0 <= i < data@.len() ==> #[trigger] s.data@[i + 2 * PAD_SIZE_EACH] == data@[i]),
            data@.len() > 2 * MAX_LENGTH ==> r == Err::<Sample, SampleTooLarge>(SampleTooLarge),
    {
        if data.len() > 2 * MAX_LENGTH {
            return Err(SampleTooLarge);
        }
        let pad_words: usize = 2 * PAD_SIZE_EACH;
        let mut padded: Vec<u32> = Vec::new();
        let mut i: usize = 0;
        while i < pad_words
            invariant
                i <= pad_words,
                pad_words == 2 * PAD_SIZE_EACH,
                padded@.len() == i,
                forall|k: int| 0 <= k < i ==> #[trigger] padded@[k] == 0u32,
            decreases pad_words - i,
        {
            padded.push(0);
            i += 1;
        }
        let mut j: usize = 0;
        while j < data.len()
            invariant
                j <= data@.len(),
                pad_words == 2 * PAD_SIZE_EACH,
                padded@.len() == pad_words + j,
                forall|k: int| 0 <= k < pad_words ==> #[trigger] padded@[k] == 0u32,
                forall|k: int| 0 <= k < j ==> #[trigger] padded@[k + pad_words] == data@[k],
            decreases data@.len() - j,
        {
            padded.push(data[j]);
            j += 1;
        }
        let mut t: usize = 0;
        while t < pad_words
            invariant
                t <= pad_words,
                pad_words == 2 * PAD_SIZE_EACH,
                padded@.len() == pad_words + data@.len() + t,
                forall|k: int| 0 <= k < pad_words ==> #[trigger] padded@[k] == 0u32,
                forall|k: int|
                    0 <= k < data@.len() ==> #[trigger] padded@[k + pad_words] == data@[k],
                forall|k: int|
                    pad_words + data@.len() <= k < padded@.len() ==> #[trigger] padded@[k]
                        == 0u32,
            decreases pad_words - t,
        {
            padded.push(0);
            t += 1;
        }
        Ok(Sample { mono: false, data: Arc::new(padded) })
    }

    /// Whether the sample is mono.
    pub fn is_mono(&self) -> (r: bool)
        ensures
            r == self.mono,
    {
        self.mono
    }

    /// Number of frames including the pad on both sides.
    pub fn len_with_pad(&self) -> (r: usize)
        requires
            self.wf(),
        ensures
            r == self.spec_len_with_pad(),
    {
        if self.mono {
            self.data.len()
        } else {
            self.data.len() / 2
        }
    }

    /// The frame at `idx` as a left/right pair of raw words; a mono frame
    /// is broadcast to both sides.
    pub fn index(&self, idx: usize) -> (r: (u32, u32))
        requires
            self.wf(),
            idx < self.spec_len_with_pad(),
        ensures
            self.mono ==> r == (self.data@[idx as int], self.data@[idx as int]),
            !self.mono ==> r == (self.data@[2 * idx as int], self.data@[2 * idx as int + 1]),
    {
        if self.mono {
            let w = self.data[idx];
            (w, w)
        } else {
            (self.data[2 * idx], self.data[2 * idx + 1])
        }
    }

    /// How many handles to this buffer exist right now.
    pub fn strongcount(&self) -> usize {
        arc_strong_count(&self.data)
    }
}

impl Clone for Sample {
    /// Cloning shares the buffer: only the handle count changes.
    fn clone(&self) -> (r: Self)
        ensures
            r == *self,
    {
        Sample { mono: self.mono, data: self.data.clone() }
    }
}

/// Whatever count-based filtering keeps is shorter than, and drawn from,
/// what it started with.
proof fn lemma_kept_by_counts_drawn(samples: Seq<Sample>, counts: Seq<usize>)
    requires
        counts.len() == samples.len(),
    ensures
        kept_by_counts(samples, counts).len() <= samples.len(),
        all_drawn_from(kept_by_counts(samples, counts), samples),
    decreases samples.len(),
{
    if samples.len() > 0 {
        lemma_kept_by_counts_drawn(samples.drop_last(), counts.drop_last());
        let kept = kept_by_counts(samples, counts);
        let rest = kept_by_counts(samples.drop_last(), counts.drop_last());
        assert forall|k: int| 0 <= k < kept.len() implies exists|j: int|
            0 <= j < samples.len() && #[trigger] kept[k] == samples[j] by {
            if k < rest.len() {
                assert(rest[k] == kept[k]);
                let j = choose|j: int|
                    0 <= j < samples.drop_last().len() && #[trigger] rest[k]
                        == samples.drop_last()[j];
                assert(kept[k] == samples[j]);
            } else {
                assert(kept[k] == samples.last());
                assert(kept[k] == samples[samples.len() - 1]);
            }
        }
    }
}

/// Relies on std's `Arc::strong_count`. The count changes whenever another
/// holder clones or drops, so nothing is promised about the value.
#[verifier::external_body]
fn arc_strong_count(a: &Arc<Vec<u32>>) -> usize {
    Arc::strong_count(a)
}

/// The sample handles of the filled slots, in slot order.
pub open spec fn retained_handles(slots: Seq<Option<(SampleMetaData, Sample)>>) -> Seq<Sample>
    decreases slots.len(),
{
    if slots.len() == 0 {
        Seq::empty()
    } else {
        let rest = retained_handles(slots.drop_last());
        match slots.last() {
            Some(p) => rest.push(p.1),
            None => rest,
        }
    }
}

/// The handles whose paired observed count is not one, in their original
/// order: exactly what a collection pass keeps.
pub open spec fn kept_by_counts(samples: Seq<Sample>, counts: Seq<usize>) -> Seq<Sample>
    decreases samples.len(),
{
    if samples.len() == 0 {
        Seq::empty()
    } else {
        let rest = kept_by_counts(samples.drop_last(), counts.drop_last());
        if counts[samples.len() - 1] != 1 {
            rest.push(samples.last())
        } else {
            rest
        }
    }
}

/// Every element of `kept` also stands somewhere in `pre`.
pub open spec fn all_drawn_from(kept: Seq<Sample>, pre: Seq<Sample>) -> bool {
    forall|k: int|
        0 <= k < kept.len() ==> exists|j: int| 0 <= j < pre.len() && #[trigger] kept[k] == pre[j]
}

/// The editor-side retainer of sample handles: it keeps one handle to every
/// sample that was ever published, and drops a handle only once it is the
/// last one left, so that the final deallocation always happens here and
/// never on the audio thread.
#[derive(Debug)]
pub struct Collector {
    /// The retained handles; only `add_sample` and `collect` touch them.
    pub samples: Vec<Sample>,
}

impl Collector {
    /// An empty collector.
    pub fn new() -> (r: Collector)
        ensures
            r.samples@ =~= Seq::<Sample>::empty(),
    {
        Collector { samples: Vec::new() }
    }

    /// Retain one more handle.
    pub fn add_sample(&mut self, sample: Sample)
        ensures
            final(self).samples@ == old(self).samples@.push(sample),
    {
        self.samples.push(sample);
    }

    /// Keep exactly the retained handles whose supplied count differs from
    /// one, in their original order. The counts come from polling the
    /// handles; given any counts, this filtering is exact.
    pub fn retain_with_counts(&mut self, counts: &Vec<usize>)
        requires
            counts@.len() == old(self).samples@.len(),
        ensures
            final(self).samples@ == kept_by_counts(old(self).samples@, counts@),
    {
        let ghost pre = self.samples@;
        let mut kept: Vec<Sample> = Vec::new();
        let mut i: usize = 0;
        while i < self.samples.len()
            invariant
                i <= self.samples@.len(),
                self.samples@ == pre,
                counts@.len() == pre.len(),
                kept@ == kept_by_counts(pre.take(i as int), counts@.take(i as int)),
            decreases self.samples@.len() - i,
        {
            let ghost pre_kept = kept@;
            if counts[i] != 1 {
                let s = self.samples[i].clone();
                proof {
                    assert(s == pre[i as int]);
                }
                kept.push(s);
            }
            i += 1;
            proof {
                let a = pre.take(i as int);
                let c = counts@.take(i as int);
                assert(a.drop_last() =~= pre.take(i - 1));
                assert(c.drop_last() =~= counts@.take(i - 1));
                assert(a.last() == pre[i - 1]);
                assert(c[a.len() - 1] == counts@[i - 1]);
                assert(kept_by_counts(a, c) == (if c[a.len() - 1] != 1 {
                    kept_by_counts(a.drop_last(), c.drop_last()).push(a.last())
                } else {
                    kept_by_counts(a.drop_last(), c.drop_last())
                }));
            }
        }
        let ghost kept_view = kept@;
        self.samples = kept;
        proof {
            assert(self.samples@ == kept_view);
            assert(pre.take(pre.len() as int) =~= pre);
            assert(counts@.take(pre.len() as int) =~= counts@);
        }
    }

    /// Drop every retained handle that is the last handle to its buffer:
    /// poll each handle's count, then keep exactly those whose count was
    /// not one (`retain_with_counts` states the filtering; the counts
    /// themselves come from the shared-handle machinery and can change
    /// under other holders, so no contract can fix them here).
    pub fn collect(&mut self)
        ensures
            final(self).samples@.len() <= old(self).samples@.len(),
            all_drawn_from(final(self).samples@, old(self).samples@),
            exists|counts: Seq<usize>|
                counts.len() == old(self).samples@.len() && final(self).samples@
                    == #[trigger] kept_by_counts(old(self).samples@, counts),
    {
        let ghost pre = self.samples@;
        let mut counts: Vec<usize> = Vec::new();
        let mut i: usize = 0;
        while i < self.samples.len()
            invariant
                i <= self.samples@.len(),
                self.samples@ == pre,
                counts@.len() == i,
            decreases self.samples@.len() - i,
        {
            let count = self.samples[i].strongcount();
            counts.push(count);
            i += 1;
        }
        self.retain_with_counts(&counts);
        proof {
            lemma_kept_by_counts_drawn(pre, counts@);
        }
    }

    /// How many handles are still retained.
    pub fn retained_count(&self) -> (r: usize)
        ensures
            r == self.samples@.len(),
    {
        self.samples.len()
    }
}

impl Default for Collector {
    fn default() -> (r: Collector)
        ensures
            r.samples@ =~= Seq::<Sample>::empty(),
    {
        Collector::new()
    }
}

/// Shape of a sample's automatic vibrato.
#[derive(Debug, Clone, Copy, PartialEq, Eq, Structural)]
pub enum VibratoWave {
    Sine,
    RampDown,
    Square,
    Random,
}

impl VibratoWave {
    /// The decoding of one waveform byte, usable in contracts.
    pub open spec fn spec_from_byte(value: u8) -> Result<VibratoWave, u8> {
        if value == 0 {
            Ok(VibratoWave::Sine)
        } else if value == 1 {
            Ok(VibratoWave::RampDown)
        } else if value == 2 {
            Ok(VibratoWave::Square)
        } else if value == 3 {
            Ok(VibratoWave::Random)
        } else {
            Err(value)
        }
    }

    /// Decode one waveform byte; unknown bytes are handed back.
    pub fn try_from(value: u8) -> (r: Result<VibratoWave, u8>)
        ensures
            r == VibratoWave::spec_from_byte(value),
    {
        match value {
            0 => Ok(VibratoWave::Sine),
            1 => Ok(VibratoWave::RampDown),
            2 => Ok(VibratoWave::Square),
            3 => Ok(VibratoWave::Random),
            _ => Err(value),
        }
    }
}

impl Default for VibratoWave {
    fn default() -> (r: Self)
        ensures
            r == VibratoWave::Sine,
    {
        VibratoWave::Sine
    }
}

/// Everything a sample carries besides its PCM words.
#[derive(Debug, Clone, Copy, PartialEq, Eq, Structural)]
pub struct SampleMetaData {
    pub default_volume: u8,
    pub global_volume: u8,
    pub default_pan: Option<u8>,
    pub vibrato_speed: u8,
    pub vibrato_depth: u8,
    pub vibrato_rate: u8,
    pub vibrato_waveform: VibratoWave,
    /// Frames per second the sample was recorded at; kept above zero.
    pub sample_rate: u32,
    pub base_note: Note,
}

impl SampleMetaData {
    /// A rate a voice can divide by, and a note in range.
    pub open spec fn wf(self) -> bool {
        &&& self.sample_rate >= 1
        &&& self.base_note.wf()
    }
}

impl Default for SampleMetaData {
    fn default() -> (r: Self)
        ensures
            r.wf(),
            r.default_volume == 64u8,
            r.global_volume == 64u8,
            r.default_pan == Option::<u8>::None,
            r.vibrato_speed == 0u8,
            r.vibrato_depth == 0u8,
            r.vibrato_rate == 0u8,
            r.vibrato_waveform == VibratoWave::Sine,
            r.sample_rate == 44100u32,
            r.base_note == (Note { value: 60u8 }),
    {
        SampleMetaData {
            default_volume: 64,
            global_volume: 64,
            default_pan: None,
            vibrato_speed: 0,
            vibrato_depth: 0,
            vibrato_rate: 0,
            vibrato_waveform: VibratoWave::Sine,
            sample_rate: 44100,
            base_note: Note { value: 60 },
        }
    }
}

} // verus!
