//! The song: global settings, patterns, orderlist, per-channel state and
//! sample slots, together with the validated operations that edit it.

use vstd::prelude::*;

use crate::note_event::{NoteEvent, Pan};
use crate::pattern::{
    event_of, pattern_op_applied, pattern_op_valid, InPatternPosition, Pattern, PatternOperation,
};
use crate::sample::{Collector, Sample, SampleMetaData};

verus! {

/// Greatest number of orderlist entries.
pub const MAX_ORDERS: usize = 256;

/// Greatest number of patterns.
pub const MAX_PATTERNS: usize = 240;

/// Greatest number of sample slots.
pub const MAX_SAMPLES_INSTR: usize = 236;

/// One entry of the orderlist.
#[derive(Debug, Clone, Copy, PartialEq, Eq, Structural)]
pub enum PatternOrder {
    /// Play this pattern.
    Number(u8),
    /// Stop playback here.
    EndOfSong,
    /// Skip this entry and look at the next one.
    SkipOrder,
}

impl PatternOrder {
    /// A `Number` entry names an existing pattern.
    pub open spec fn wf(self) -> bool {
        match self {
            PatternOrder::Number(n) => n <= 199,
            _ => true,
        }
    }

    /// The decoding of one orderlist byte, usable in contracts.
    pub open spec fn spec_from_byte(value: u8) -> Result<PatternOrder, u8> {
        if value == 255 {
            Ok(PatternOrder::EndOfSong)
        } else if value == 254 {
            Ok(PatternOrder::SkipOrder)
        } else if value <= 199 {
            Ok(PatternOrder::Number(value))
        } else {
            Err(value)
        }
    }

    /// Decode one orderlist byte; bytes 200 through 253 have no meaning and
    /// come back unchanged.
    pub fn try_from(value: u8) -> (r: Result<PatternOrder, u8>)
        ensures
            r == PatternOrder::spec_from_byte(value),
            r matches Ok(o) ==> o.wf(),
    {
        if value == 255 {
            Ok(PatternOrder::EndOfSong)
        } else if value == 254 {
            Ok(PatternOrder::SkipOrder)
        } else if value <= 199 {
            Ok(PatternOrder::Number(value))
        } else {
            Err(value)
        }
    }
}

impl Default for PatternOrder {
    fn default() -> (r: Self)
        ensures
            r == PatternOrder::EndOfSong,
    {
        PatternOrder::EndOfSong
    }
}

/// A complete song.
#[derive(Debug)]
pub struct Song {
    pub global_volume: u8,
    pub mix_volume: u8,
    /// Ticks per row; kept at or above one.
    pub initial_speed: u8,
    /// Two ticks per second are played for every `initial_tempo`; kept at or
    /// above one.
    pub initial_tempo: u8,
    pub pan_separation: u8,
    pub pitch_wheel_depth: u8,
    /// Always `MAX_PATTERNS` entries.
    pub patterns: Vec<Pattern>,
    /// Always `MAX_ORDERS` entries.
    pub pattern_order: Vec<PatternOrder>,
    /// Always `MAX_CHANNELS` entries.
    pub volume: Vec<u8>,
    /// Always `MAX_CHANNELS` entries.
    pub pan: Vec<Pan>,
    /// Always `MAX_SAMPLES_INSTR` entries.
    pub samples: Vec<Option<(SampleMetaData, Sample)>>,
}

/// State-independent well-formedness of a sample slot's payload.
pub open spec fn sample_payload_wf(meta: SampleMetaData, sample: Sample) -> bool {
    meta.wf() && sample.wf()
}

impl Song {
    /// Structural invariant of a song.
    pub open spec fn wf(self) -> bool {
        &&& self.initial_speed >= 1
        &&& self.initial_tempo >= 1
        &&& self.patterns@.len() == MAX_PATTERNS
        &&& forall|i: int| 0 <= i < MAX_PATTERNS ==> (#[trigger] self.patterns@[i]).wf()
        &&& self.pattern_order@.len() == MAX_ORDERS
        &&& forall|i: int| 0 <= i < MAX_ORDERS ==> (#[trigger] self.pattern_order@[i]).wf()
        &&& self.volume@.len() == crate::MAX_CHANNELS
        &&& self.pan@.len() == crate::MAX_CHANNELS
        &&& self.samples@.len() == MAX_SAMPLES_INSTR
        &&& forall|i: int|
            0 <= i < MAX_SAMPLES_INSTR ==> ((#[trigger] self.samples@[i]) matches Some(p)
                ==> sample_payload_wf(p.0, p.1))
    }

    /// The orderlist entry at `order`; anything out of bounds reads as
    /// `EndOfSong`.
    pub open spec fn spec_get_order(self, order: int) -> PatternOrder {
        if 0 <= order < self.pattern_order@.len() {
            self.pattern_order@[order]
        } else {
            PatternOrder::EndOfSong
        }
    }

    /// The orderlist entry at `order`; anything out of bounds reads as
    /// `EndOfSong`.
    pub fn get_order(&self, order: u16) -> (r: PatternOrder)
        requires
            self.wf(),
        ensures
            r == self.spec_get_order(order as int),
    {
        if (order as usize) < self.pattern_order.len() {
            self.pattern_order[order as usize]
        } else {
            PatternOrder::EndOfSong
        }
    }

    /// Walk the orderlist forward from `*order`, skipping `SkipOrder`
    /// entries. Returns the first pattern number found and leaves `*order`
    /// on its entry; returns `None` at an `EndOfSong` entry (or past the
    /// end), leaving `*order` where the walk stopped.
    pub fn next_pattern(&self, order: &mut u16) -> (r: Option<u8>)
        requires
            self.wf(),
        ensures
            *final(order) >= *old(order),
            forall|k: int|
                *old(order) <= k < *final(order) ==> #[trigger] self.spec_get_order(k)
                    == PatternOrder::SkipOrder,
            r matches Some(p) ==> self.spec_get_order(*final(order) as int)
                == PatternOrder::Number(p) && p < MAX_PATTERNS as u8,
            r is None ==> self.spec_get_order(*final(order) as int) == PatternOrder::EndOfSong,
    {
        loop
            invariant
                self.wf(),
                *order >= *old(order),
                forall|k: int|
                    *old(order) <= k < *order ==> #[trigger] self.spec_get_order(k)
                        == PatternOrder::SkipOrder,
            decreases MAX_ORDERS - *order,
        {
            match self.get_order(*order) {
                PatternOrder::Number(pattern) => {
                    return Some(pattern);
                },
                PatternOrder::EndOfSong => {
                    return None;
                },
                PatternOrder::SkipOrder => {
                    // a SkipOrder entry was read, so *order is in bounds
                    assert(*order < MAX_ORDERS as u16);
                    *order = *order + 1;
                },
            }
        }
    }
}

/// An edit of the song as the editor states it, not yet validated.
#[derive(Debug, Clone)]
pub enum SongOperation {
    SetVolume(u8, u8),
    SetPan(u8, Pan),
    SetSample(u8, SampleMetaData, Sample),
    RemoveSample(u8),
    PatternOperation(u8, PatternOperation),
    SetOrder(u16, PatternOrder),
    SetInitialSpeed(u8),
    SetInitialTempo(u8),
    SetGlobalVol(u8),
}

/// An edit that `ValidOperation::new` accepted against some song state.
#[derive(Debug)]
pub enum ValidOperation {
    SetVolume(u8, u8),
    SetPan(u8, Pan),
    SetSample(u8, SampleMetaData, Sample),
    RemoveSample(u8),
    PatternOperation(u8, PatternOperation),
    SetOrder(u16, PatternOrder),
    SetInitialSpeed(u8),
    SetInitialTempo(u8),
    SetGlobalVol(u8),
}

/// Whether `op` may be applied to `song`.
pub open spec fn op_valid(song: Song, op: SongOperation) -> bool {
    match op {
        SongOperation::SetVolume(c, _) => c < crate::MAX_CHANNELS as u8,
        SongOperation::SetPan(c, _) => c < crate::MAX_CHANNELS as u8,
        SongOperation::SetSample(i, meta, sample) => i < MAX_SAMPLES_INSTR as u8
            && sample_payload_wf(meta, sample),
        SongOperation::RemoveSample(i) => i < MAX_SAMPLES_INSTR as u8,
        SongOperation::PatternOperation(i, pop) => i < MAX_PATTERNS as u8 && pattern_op_valid(
            song.patterns@[i as int],
            pop,
        ),
        SongOperation::SetOrder(i, order) => i < MAX_ORDERS as u16 && order.wf(),
        SongOperation::SetInitialSpeed(s) => s >= 1,
        SongOperation::SetInitialTempo(t) => t >= 1,
        SongOperation::SetGlobalVol(_) => true,
    }
}

/// Equality of patterns up to representation: same row count, same cells.
pub open spec fn pattern_like(a: Pattern, b: Pattern) -> bool {
    a.spec_rows() == b.spec_rows() && a.events() == b.events()
}

/// Equality of songs up to representation.
pub open spec fn song_like(a: Song, b: Song) -> bool {
    &&& scalars_eq(a, b)
    &&& patterns_eq(a, b)
    &&& a.pattern_order@ == b.pattern_order@
    &&& a.volume@ == b.volume@
    &&& a.pan@ == b.pan@
    &&& a.samples@ == b.samples@
}

/// The six scalar settings agree.
pub open spec fn scalars_eq(a: Song, b: Song) -> bool {
    &&& a.global_volume == b.global_volume
    &&& a.mix_volume == b.mix_volume
    &&& a.initial_speed == b.initial_speed
    &&& a.initial_tempo == b.initial_tempo
    &&& a.pan_separation == b.pan_separation
    &&& a.pitch_wheel_depth == b.pitch_wheel_depth
}

/// All patterns agree, cell for cell.
pub open spec fn patterns_eq(a: Song, b: Song) -> bool {
    a.patterns@.len() == b.patterns@.len() && forall|i: int|
        0 <= i < a.patterns@.len() ==> pattern_like(
            #[trigger] a.patterns@[i],
            #[trigger] b.patterns@[i],
        )
}

/// All patterns but `at` agree, cell for cell.
pub open spec fn patterns_eq_except(a: Song, b: Song, at: int) -> bool {
    a.patterns@.len() == b.patterns@.len() && forall|i: int|
        0 <= i < a.patterns@.len() && i != at ==> pattern_like(
            #[trigger] a.patterns@[i],
            #[trigger] b.patterns@[i],
        )
}

/// Whether `op` can take effect on `song` right now. Validation guarantees
/// this at validation time; `absorb_operation` re-checks it so that replay
/// against any state stays total and panic-free.
pub open spec fn op_applies(song: Song, op: ValidOperation) -> bool {
    match op {
        ValidOperation::SetVolume(c, _) => c < crate::MAX_CHANNELS as u8,
        ValidOperation::SetPan(c, _) => c < crate::MAX_CHANNELS as u8,
        ValidOperation::SetSample(i, meta, sample) => i < MAX_SAMPLES_INSTR as u8
            && sample_payload_wf(meta, sample),
        ValidOperation::RemoveSample(i) => i < MAX_SAMPLES_INSTR as u8,
        ValidOperation::PatternOperation(i, pop) => i < MAX_PATTERNS as u8 && pattern_op_valid(
            song.patterns@[i as int],
            pop,
        ),
        ValidOperation::SetOrder(i, order) => i < MAX_ORDERS as u16 && order.wf(),
        ValidOperation::SetInitialSpeed(s) => s >= 1,
        ValidOperation::SetInitialTempo(t) => t >= 1,
        ValidOperation::SetGlobalVol(_) => true,
    }
}

/// The exact relation between the song before and after absorbing `op`.
/// An operation that no longer applies leaves the song as it is.
pub open spec fn song_op_applied(pre: Song, post: Song, op: ValidOperation) -> bool {
    if !op_applies(pre, op) {
        song_like(pre, post)
    } else {
        match op {
            ValidOperation::SetVolume(c, v) => {
                &&& post.volume@ == pre.volume@.update(c as int, v)
                &&& scalars_eq(pre, post)
                &&& patterns_eq(pre, post)
                &&& post.pattern_order@ == pre.pattern_order@
                &&& post.pan@ == pre.pan@
                &&& post.samples@ == pre.samples@
            },
            ValidOperation::SetPan(c, p) => {
                &&& post.pan@ == pre.pan@.update(c as int, p)
                &&& scalars_eq(pre, post)
                &&& patterns_eq(pre, post)
                &&& post.pattern_order@ == pre.pattern_order@
                &&& post.volume@ == pre.volume@
                &&& post.samples@ == pre.samples@
            },
            ValidOperation::SetSample(i, meta, sample) => {
                &&& post.samples@ == pre.samples@.update(i as int, Some((meta, sample)))
                &&& scalars_eq(pre, post)
                &&& patterns_eq(pre, post)
                &&& post.pattern_order@ == pre.pattern_order@
                &&& post.volume@ == pre.volume@
                &&& post.pan@ == pre.pan@
            },
            ValidOperation::RemoveSample(i) => {
                &&& post.samples@ == pre.samples@.update(
                    i as int,
                    Option::<(SampleMetaData, Sample)>::None,
                )
                &&& scalars_eq(pre, post)
                &&& patterns_eq(pre, post)
                &&& post.pattern_order@ == pre.pattern_order@
                &&& post.volume@ == pre.volume@
                &&& post.pan@ == pre.pan@
            },
            ValidOperation::PatternOperation(i, pop) => {
                &&& patterns_eq_except(pre, post, i as int)
                &&& pattern_op_applied(pre.patterns@[i as int], post.patterns@[i as int], pop)
                &&& scalars_eq(pre, post)
                &&& post.pattern_order@ == pre.pattern_order@
                &&& post.volume@ == pre.volume@
                &&& post.pan@ == pre.pan@
                &&& post.samples@ == pre.samples@
            },
            ValidOperation::SetOrder(i, order) => {
                &&& post.pattern_order@ == pre.pattern_order@.update(i as int, order)
                &&& scalars_eq(pre, post)
                &&& patterns_eq(pre, post)
                &&& post.volume@ == pre.volume@
                &&& post.pan@ == pre.pan@
                &&& post.samples@ == pre.samples@
            },
            ValidOperation::SetInitialSpeed(s) => {
                &&& post.initial_speed == s
                &&& post.global_volume == pre.global_volume
                &&& post.mix_volume == pre.mix_volume
                &&& post.initial_tempo == pre.initial_tempo
                &&& post.pan_separation == pre.pan_separation
                &&& post.pitch_wheel_depth == pre.pitch_wheel_depth
                &&& patterns_eq(pre, post)
                &&& post.pattern_order@ == pre.pattern_order@
                &&& post.volume@ == pre.volume@
                &&& post.pan@ == pre.pan@
                &&& post.samples@ == pre.samples@
            },
            ValidOperation::SetInitialTempo(t) => {
                &&& post.initial_tempo == t
                &&& post.global_volume == pre.global_volume
                &&& post.mix_volume == pre.mix_volume
                &&& post.initial_speed == pre.initial_speed
                &&& post.pan_separation == pre.pan_separation
                &&& post.pitch_wheel_depth == pre.pitch_wheel_depth
                &&& patterns_eq(pre, post)
                &&& post.pattern_order@ == pre.pattern_order@
                &&& post.volume@ == pre.volume@
                &&& post.pan@ == pre.pan@
                &&& post.samples@ == pre.samples@
            },
            ValidOperation::SetGlobalVol(v) => {
                &&& post.global_volume == v
                &&& post.mix_volume == pre.mix_volume
                &&& post.initial_speed == pre.initial_speed
                &&& post.initial_tempo == pre.initial_tempo
                &&& post.pan_separation == pre.pan_separation
                &&& post.pitch_wheel_depth == pre.pitch_wheel_depth
                &&& patterns_eq(pre, post)
                &&& post.pattern_order@ == pre.pattern_order@
                &&& post.volume@ == pre.volume@
                &&& post.pan@ == pre.pan@
                &&& post.samples@ == pre.samples@
            },
        }
    }
}

/// The `ValidOperation` carrying the same payload as `op`.
pub open spec fn as_valid(op: SongOperation) -> ValidOperation {
    match op {
        SongOperation::SetVolume(c, v) => ValidOperation::SetVolume(c, v),
        SongOperation::SetPan(c, p) => ValidOperation::SetPan(c, p),
        SongOperation::SetSample(i, m, s) => ValidOperation::SetSample(i, m, s),
        SongOperation::RemoveSample(i) => ValidOperation::RemoveSample(i),
        SongOperation::PatternOperation(i, pop) => ValidOperation::PatternOperation(i, pop),
        SongOperation::SetOrder(i, o) => ValidOperation::SetOrder(i, o),
        SongOperation::SetInitialSpeed(s) => ValidOperation::SetInitialSpeed(s),
        SongOperation::SetInitialTempo(t) => ValidOperation::SetInitialTempo(t),
        SongOperation::SetGlobalVol(v) => ValidOperation::SetGlobalVol(v),
    }
}

} // verus!

use vstd::pervasive::VecAdditionalExecFns;

verus! {

impl Clone for Song {
    /// Cloning copies every part of the song; sample buffers are shared by
    /// handle.
    fn clone(&self) -> (r: Self)
        ensures
            song_like(*self, r),
    {
        let mut patterns: Vec<Pattern> = Vec::new();
        let mut i: usize = 0;
        while i < self.patterns.len()
            invariant
                i <= self.patterns@.len(),
                patterns@.len() == i,
                forall|k: int|
                    0 <= k < i ==> pattern_like(
                        #[trigger] self.patterns@[k],
                        #[trigger] patterns@[k],
                    ),
            decreases self.patterns@.len() - i,
        {
            patterns.push(self.patterns[i].clone());
            i += 1;
        }
        let mut samples: Vec<Option<(SampleMetaData, Sample)>> = Vec::new();
        let mut j: usize = 0;
        while j < self.samples.len()
            invariant
                j <= self.samples@.len(),
                samples@ == self.samples@.take(j as int),
            decreases self.samples@.len() - j,
        {
            let slot = match &self.samples[j] {
                Some(p) => Some((p.0, p.1.clone())),
                None => None,
            };
            proof {
                assert(slot == self.samples@[j as int]);
            }
            samples.push(slot);
            proof {
                assert(samples@ =~= self.samples@.take(j + 1));
            }
            j += 1;
        }
        let r = Song {
            global_volume: self.global_volume,
            mix_volume: self.mix_volume,
            initial_speed: self.initial_speed,
            initial_tempo: self.initial_tempo,
            pan_separation: self.pan_separation,
            pitch_wheel_depth: self.pitch_wheel_depth,
            patterns,
            pattern_order: self.pattern_order.clone(),
            volume: self.volume.clone(),
            pan: self.pan.clone(),
            samples,
        };
        proof {
            assert(r.samples@ =~= self.samples@);
        }
        r
    }
}

impl Clone for ValidOperation {
    /// Cloning keeps the payload; a sample is shared by handle.
    fn clone(&self) -> (r: Self)
        ensures
            r == *self,
    {
        match self {
            ValidOperation::SetVolume(c, v) => ValidOperation::SetVolume(*c, *v),
            ValidOperation::SetPan(c, p) => ValidOperation::SetPan(*c, *p),
            ValidOperation::SetSample(i, m, s) => ValidOperation::SetSample(*i, *m, s.clone()),
            ValidOperation::RemoveSample(i) => ValidOperation::RemoveSample(*i),
            ValidOperation::PatternOperation(i, pop) => ValidOperation::PatternOperation(
                *i,
                *pop,
            ),
            ValidOperation::SetOrder(i, o) => ValidOperation::SetOrder(*i, *o),
            ValidOperation::SetInitialSpeed(s) => ValidOperation::SetInitialSpeed(*s),
            ValidOperation::SetInitialTempo(t) => ValidOperation::SetInitialTempo(*t),
            ValidOperation::SetGlobalVol(v) => ValidOperation::SetGlobalVol(*v),
        }
    }
}

impl ValidOperation {
    /// Validate `op` against `song`. A valid operation is handed back as a
    /// `ValidOperation`; on `SetSample` the collector retains one handle of
    /// the published sample. An invalid operation comes back unchanged and
    /// nothing else happens.
    pub fn new(op: SongOperation, handle: &mut Collector, song: &Song) -> (r: Result<
        ValidOperation,
        SongOperation,
    >)
        requires
            song.wf(),
        ensures
            op_valid(*song, op) ==> r == Ok::<ValidOperation, SongOperation>(as_valid(op)),
            !op_valid(*song, op) ==> (r == Err::<ValidOperation, SongOperation>(op)
                && final(handle).samples@ == old(handle).samples@),
            op matches SongOperation::SetSample(_, _, s) ==> (op_valid(*song, op)
                ==> final(handle).samples@ == old(handle).samples@.push(s)),
            !(op matches SongOperation::SetSample(..))
                ==> final(handle).samples@ == old(handle).samples@,
    {
        let valid = match &op {
            SongOperation::SetVolume(c, _) => (*c as usize) < crate::MAX_CHANNELS,
            SongOperation::SetPan(c, _) => (*c as usize) < crate::MAX_CHANNELS,
            SongOperation::SetSample(idx, meta, sample) => (*idx as usize) < MAX_SAMPLES_INSTR
                && meta.sample_rate >= 1 && meta.base_note.value <= 199 && sample.is_wf(),
            SongOperation::RemoveSample(idx) => (*idx as usize) < MAX_SAMPLES_INSTR,
            SongOperation::PatternOperation(idx, pop) => (*idx as usize) < MAX_PATTERNS
                && song.patterns[*idx as usize].operation_is_valid(pop),
            SongOperation::SetOrder(idx, order) => (*idx as usize) < MAX_ORDERS && (match order {
                PatternOrder::Number(n) => *n <= 199,
                _ => true,
            }),
            SongOperation::SetInitialSpeed(s) => *s >= 1,
            SongOperation::SetInitialTempo(t) => *t >= 1,
            SongOperation::SetGlobalVol(_) => true,
        };
        if valid {
            Ok(
                match op {
                    SongOperation::SetVolume(c, v) => ValidOperation::SetVolume(c, v),
                    SongOperation::SetPan(c, pan) => ValidOperation::SetPan(c, pan),
                    SongOperation::SetSample(i, meta_data, sample) => {
                        handle.add_sample(sample.clone());
                        ValidOperation::SetSample(i, meta_data, sample)
                    },
                    SongOperation::RemoveSample(i) => ValidOperation::RemoveSample(i),
                    SongOperation::PatternOperation(i, pattern_operation) => {
                        ValidOperation::PatternOperation(i, pattern_operation)
                    },
                    SongOperation::SetOrder(i, pattern_order) => ValidOperation::SetOrder(
                        i,
                        pattern_order,
                    ),
                    SongOperation::SetInitialSpeed(s) => ValidOperation::SetInitialSpeed(s),
                    SongOperation::SetInitialTempo(t) => ValidOperation::SetInitialTempo(t),
                    SongOperation::SetGlobalVol(v) => ValidOperation::SetGlobalVol(v),
                },
            )
        } else {
            Err(op)
        }
    }
}

impl Song {
    /// Absorb one validated operation. An operation that no longer applies
    /// to this state leaves the song unchanged, so replay can never panic.
    pub fn absorb_operation(&mut self, op: ValidOperation)
        requires
            old(self).wf(),
        ensures
            final(self).wf(),
            song_op_applied(*old(self), *final(self), op),
    {
        match op {
            ValidOperation::SetVolume(c, v) => {
                if (c as usize) < crate::MAX_CHANNELS {
                    self.volume.set(c as usize, v);
                }
            },
            ValidOperation::SetPan(c, p) => {
                if (c as usize) < crate::MAX_CHANNELS {
                    self.pan.set(c as usize, p);
                }
            },
            ValidOperation::SetSample(i, meta, sample) => {
                let payload_ok = (i as usize) < MAX_SAMPLES_INSTR && meta.sample_rate >= 1
                    && meta.base_note.value <= 199 && sample.is_wf();
                if payload_ok {
                    self.samples.set(i as usize, Some((meta, sample)));
                }
            },
            ValidOperation::RemoveSample(i) => {
                if (i as usize) < MAX_SAMPLES_INSTR {
                    self.samples.set(i as usize, None);
                }
            },
            ValidOperation::PatternOperation(i, pop) => {
                if (i as usize) < MAX_PATTERNS && self.patterns[i as usize].operation_is_valid(
                    &pop,
                ) {
                    let ghost pre = self.patterns@;
                    let mut taken = Pattern::new(1);
                    self.patterns.set_and_swap(i as usize, &mut taken);
                    taken.apply_operation(pop);
                    self.patterns.set_and_swap(i as usize, &mut taken);
                    proof {
                        assert(self.patterns@ =~= pre.update(
                            i as int,
                            self.patterns@[i as int],
                        ));
                    }
                }
            },
            ValidOperation::SetOrder(i, order) => {
                let order_ok = match order {
                    PatternOrder::Number(n) => n <= 199,
                    _ => true,
                };
                if (i as usize) < MAX_ORDERS && order_ok {
                    self.pattern_order.set(i as usize, order);
                }
            },
            ValidOperation::SetInitialSpeed(s) => {
                if s >= 1 {
                    self.initial_speed = s;
                }
            },
            ValidOperation::SetInitialTempo(t) => {
                if t >= 1 {
                    self.initial_tempo = t;
                }
            },
            ValidOperation::SetGlobalVol(v) => {
                self.global_volume = v;
            },
        }
    }
}

impl Default for Song {
    /// An empty song at the customary initial settings.
    fn default() -> (r: Song)
        ensures
            r.wf(),
            r.global_volume == 128u8,
            r.mix_volume == 0u8,
            r.initial_speed == 6u8,
            r.initial_tempo == 125u8,
            r.pan_separation == 128u8,
            r.pitch_wheel_depth == 0u8,
            forall|i: int|
                0 <= i < MAX_PATTERNS ==> (#[trigger] r.patterns@[i]).spec_rows()
                    == Pattern::DEFAULT_ROWS && r.patterns@[i].events().len() == 0,
            forall|i: int|
                0 <= i < MAX_ORDERS ==> #[trigger] r.pattern_order@[i]
                    == PatternOrder::EndOfSong,
            forall|i: int| 0 <= i < crate::MAX_CHANNELS ==> #[trigger] r.volume@[i] == 64u8,
            forall|i: int|
                0 <= i < crate::MAX_CHANNELS ==> #[trigger] r.pan@[i] == Pan::Value(32u8),
            forall|i: int|
                0 <= i < MAX_SAMPLES_INSTR ==> #[trigger] r.samples@[i]
                    == Option::<(SampleMetaData, Sample)>::None,
    {
        let mut patterns: Vec<Pattern> = Vec::new();
        let mut i: usize = 0;
        while i < MAX_PATTERNS
            invariant
                i <= MAX_PATTERNS,
                patterns@.len() == i,
                forall|k: int|
                    0 <= k < i ==> (#[trigger] patterns@[k]).wf() && patterns@[k].spec_rows()
                        == Pattern::DEFAULT_ROWS && patterns@[k].events().len() == 0,
            decreases MAX_PATTERNS - i,
        {
            patterns.push(Pattern::new(Pattern::DEFAULT_ROWS));
            i += 1;
        }
        let mut pattern_order: Vec<PatternOrder> = Vec::new();
        let mut j: usize = 0;
        while j < MAX_ORDERS
            invariant
                j <= MAX_ORDERS,
                pattern_order@.len() == j,
                forall|k: int|
                    0 <= k < j ==> #[trigger] pattern_order@[k] == PatternOrder::EndOfSong,
            decreases MAX_ORDERS - j,
        {
            pattern_order.push(PatternOrder::EndOfSong);
            j += 1;
        }
        let mut volume: Vec<u8> = Vec::new();
        let mut pan: Vec<Pan> = Vec::new();
        let mut c: usize = 0;
        while c < crate::MAX_CHANNELS
            invariant
                c <= crate::MAX_CHANNELS,
                volume@.len() == c,
                pan@.len() == c,
                forall|k: int| 0 <= k < c ==> #[trigger] volume@[k] == 64u8,
                forall|k: int| 0 <= k < c ==> #[trigger] pan@[k] == Pan::Value(32u8),
            decreases crate::MAX_CHANNELS - c,
        {
            volume.push(64);
            pan.push(Pan::Value(32));
            c += 1;
        }
        let mut samples: Vec<Option<(SampleMetaData, Sample)>> = Vec::new();
        let mut s: usize = 0;
        while s < MAX_SAMPLES_INSTR
            invariant
                s <= MAX_SAMPLES_INSTR,
                samples@.len() == s,
                forall|k: int|
                    0 <= k < s ==> #[trigger] samples@[k]
                        == Option::<(SampleMetaData, Sample)>::None,
            decreases MAX_SAMPLES_INSTR - s,
        {
            samples.push(None);
            s += 1;
        }
        Song {
            global_volume: 128,
            mix_volume: 0,
            initial_speed: 6,
            initial_tempo: 125,
            pan_separation: 128,
            pitch_wheel_depth: 0,
            patterns,
            pattern_order,
            volume,
            pan,
            samples,
        }
    }
}

} // verus!

verus! {

/// Absorbing one operation is a function of the state: from states that
/// agree, the same operation leads to states that agree.
pub proof fn lemma_absorb_deterministic(
    pre1: Song,
    post1: Song,
    pre2: Song,
    post2: Song,
    op: ValidOperation,
)
    requires
        pre1.wf(),
        pre2.wf(),
        post1.wf(),
        post2.wf(),
        song_like(pre1, pre2),
        song_op_applied(pre1, post1, op),
        song_op_applied(pre2, post2, op),
    ensures
        song_like(post1, post2),
{
    assert(op_applies(pre1, op) == op_applies(pre2, op)) by {
        match op {
            ValidOperation::PatternOperation(pi, pop) => {
                if pi < MAX_PATTERNS as u8 {
                    assert(pattern_like(pre1.patterns@[pi as int], pre2.patterns@[pi as int]));
                }
            },
            _ => {},
        }
    }
    if !op_applies(pre1, op) {
        assert(patterns_eq(post1, post2)) by {
            assert forall|k: int| 0 <= k < post1.patterns@.len() implies pattern_like(
                #[trigger] post1.patterns@[k],
                #[trigger] post2.patterns@[k],
            ) by {
                assert(pattern_like(pre1.patterns@[k], post1.patterns@[k]));
                assert(pattern_like(pre1.patterns@[k], pre2.patterns@[k]));
                assert(pattern_like(pre2.patterns@[k], post2.patterns@[k]));
            }
        }
        assert(song_like(post1, post2));
    } else {
        match op {
            ValidOperation::PatternOperation(pi, pop) => {
                let i = pi as int;
                let p1 = post1.patterns@[i];
                let p2 = post2.patterns@[i];
                let q1 = pre1.patterns@[i];
                let q2 = pre2.patterns@[i];
                assert(pattern_like(q1, q2));
                assert(pattern_op_applied(q1, p1, pop));
                assert(pattern_op_applied(q2, p2, pop));
                assert forall|q: InPatternPosition| #[trigger] event_of(p1.events(), q)
                    == event_of(p2.events(), q) by {
                    match pop {
                        PatternOperation::SetLength { new_len } => {
                            if q.row < new_len {
                                assert(event_of(p1.events(), q) == event_of(q1.events(), q));
                                assert(event_of(p2.events(), q) == event_of(q2.events(), q));
                            } else {
                                assert(event_of(p1.events(), q) == Option::<NoteEvent>::None);
                                assert(event_of(p2.events(), q) == Option::<NoteEvent>::None);
                            }
                        },
                        PatternOperation::SetEvent { position, event } => {
                            if q != position {
                                assert(event_of(p1.events(), q) == event_of(q1.events(), q));
                                assert(event_of(p2.events(), q) == event_of(q2.events(), q));
                            }
                        },
                        PatternOperation::RemoveEvent { position } => {
                            if q != position {
                                assert(event_of(p1.events(), q) == event_of(q1.events(), q));
                                assert(event_of(p2.events(), q) == event_of(q2.events(), q));
                            }
                        },
                    }
                }
                assert(p1.wf() && p2.wf());
                crate::pattern::lemma_sorted_events_canonical(p1.events(), p2.events());
                assert(p1.spec_rows() == p2.spec_rows()) by {
                    match pop {
                        PatternOperation::SetLength { new_len } => {},
                        PatternOperation::SetEvent { .. } => {},
                        PatternOperation::RemoveEvent { .. } => {},
                    }
                }
                assert(pattern_like(p1, p2));
                assert(patterns_eq(post1, post2)) by {
                    assert forall|k: int| 0 <= k < post1.patterns@.len() implies pattern_like(
                        #[trigger] post1.patterns@[k],
                        #[trigger] post2.patterns@[k],
                    ) by {
                        if k != i {
                            assert(patterns_eq_except(pre1, post1, i));
                            assert(patterns_eq_except(pre2, post2, i));
                            assert(pattern_like(pre1.patterns@[k], post1.patterns@[k]));
                            assert(pattern_like(pre1.patterns@[k], pre2.patterns@[k]));
                            assert(pattern_like(pre2.patterns@[k], post2.patterns@[k]));
                        }
                    }
                }
            },
            _ => {
                assert(patterns_eq(post1, post2)) by {
                    assert forall|k: int| 0 <= k < post1.patterns@.len() implies pattern_like(
                        #[trigger] post1.patterns@[k],
                        #[trigger] post2.patterns@[k],
                    ) by {
                        assert(pattern_like(pre1.patterns@[k], post1.patterns@[k]));
                        assert(pattern_like(pre1.patterns@[k], pre2.patterns@[k]));
                        assert(pattern_like(pre2.patterns@[k], post2.patterns@[k]));
                    }
                }
                assert(song_like(post1, post2));
            },
        }
    }
}

/// Replay determinism: the same two operations, absorbed in the same order
/// into two copies of one state, leave the two copies agreeing.
pub proof fn lemma_replay_deterministic(
    s0: Song,
    a1: Song,
    a2: Song,
    t0: Song,
    b1: Song,
    b2: Song,
    op1: ValidOperation,
    op2: ValidOperation,
)
    requires
        s0.wf(),
        a1.wf(),
        a2.wf(),
        t0.wf(),
        b1.wf(),
        b2.wf(),
        song_like(s0, t0),
        song_op_applied(s0, a1, op1),
        song_op_applied(a1, a2, op2),
        song_op_applied(t0, b1, op1),
        song_op_applied(b1, b2, op2),
    ensures
        song_like(a2, b2),
{
    lemma_absorb_deterministic(s0, a1, t0, b1, op1);
    lemma_absorb_deterministic(a1, a2, b1, b2, op2);
}

} // verus!

verus! {

/// `song_like` is reflexive.
pub proof fn lemma_song_like_refl(a: Song)
    ensures
        song_like(a, a),
{
}

/// `song_like` is symmetric.
pub proof fn lemma_song_like_sym(a: Song, b: Song)
    requires
        song_like(a, b),
    ensures
        song_like(b, a),
{
    assert forall|i: int| 0 <= i < b.patterns@.len() implies pattern_like(
        #[trigger] b.patterns@[i],
        #[trigger] a.patterns@[i],
    ) by {
        assert(pattern_like(a.patterns@[i], b.patterns@[i]));
    }
}

/// `song_like` is transitive.
pub proof fn lemma_song_like_trans(a: Song, b: Song, c: Song)
    requires
        song_like(a, b),
        song_like(b, c),
    ensures
        song_like(a, c),
{
    assert forall|i: int| 0 <= i < a.patterns@.len() implies pattern_like(
        #[trigger] a.patterns@[i],
        #[trigger] c.patterns@[i],
    ) by {
        assert(pattern_like(a.patterns@[i], b.patterns@[i]));
        assert(pattern_like(b.patterns@[i], c.patterns@[i]));
    }
}

/// Well-formedness carries across `song_like`.
pub proof fn lemma_song_like_wf(a: Song, b: Song)
    requires
        a.wf(),
        song_like(a, b),
    ensures
        b.wf(),
{
    assert forall|i: int| 0 <= i < MAX_PATTERNS implies (#[trigger] b.patterns@[i]).wf() by {
        assert(pattern_like(a.patterns@[i], b.patterns@[i]));
        assert(a.patterns@[i].wf());
    }
}

/// The application relation reads the starting song only through its views.
pub proof fn lemma_absorb_congruent(pre1: Song, pre2: Song, op: ValidOperation, post: Song)
    requires
        pre1.wf(),
        pre2.wf(),
        song_like(pre1, pre2),
        song_op_applied(pre1, post, op),
    ensures
        song_op_applied(pre2, post, op),
{
    assert(op_applies(pre1, op) == op_applies(pre2, op)) by {
        match op {
            ValidOperation::PatternOperation(pi, pop) => {
                if pi < MAX_PATTERNS as u8 {
                    assert(pattern_like(pre1.patterns@[pi as int], pre2.patterns@[pi as int]));
                }
            },
            _ => {},
        }
    }
    if !op_applies(pre1, op) {
        lemma_song_like_sym(pre1, pre2);
        lemma_song_like_trans(pre2, pre1, post);
    } else {
        match op {
            ValidOperation::PatternOperation(pi, pop) => {
                let i = pi as int;
                assert(pattern_like(pre1.patterns@[i], pre2.patterns@[i]));
                assert(pattern_op_applied(pre2.patterns@[i], post.patterns@[i], pop)) by {
                    match pop {
                        PatternOperation::SetLength { new_len } => {},
                        PatternOperation::SetEvent { position, event } => {},
                        PatternOperation::RemoveEvent { position } => {},
                    }
                }
                assert(patterns_eq_except(pre2, post, i)) by {
                    assert forall|k: int| 0 <= k < pre2.patterns@.len() && k != i implies
                        pattern_like(#[trigger] pre2.patterns@[k], #[trigger] post.patterns@[k]) by {
                        assert(pattern_like(pre2.patterns@[k], pre1.patterns@[k])) by {
                            assert(pattern_like(pre1.patterns@[k], pre2.patterns@[k]));
                        }
                        assert(pattern_like(pre1.patterns@[k], post.patterns@[k]));
                    }
                }
            },
            _ => {
                assert(patterns_eq(pre2, post)) by {
                    assert forall|k: int| 0 <= k < pre2.patterns@.len() implies pattern_like(
                        #[trigger] pre2.patterns@[k],
                        #[trigger] post.patterns@[k],
                    ) by {
                        assert(pattern_like(pre2.patterns@[k], pre1.patterns@[k])) by {
                            assert(pattern_like(pre1.patterns@[k], pre2.patterns@[k]));
                        }
                        assert(pattern_like(pre1.patterns@[k], post.patterns@[k]));
                    }
                }
            },
        }
    }
}

impl crate::left_right::Absorb<ValidOperation> for Song {
    open spec fn t_wf(a: Song) -> bool {
        a.wf()
    }

    open spec fn t_like(a: Song, b: Song) -> bool {
        song_like(a, b)
    }

    open spec fn absorb_rel(pre: Song, op: ValidOperation, post: Song) -> bool {
        song_op_applied(pre, post, op)
    }

    proof fn t_like_refl(a: Song) {
        lemma_song_like_refl(a);
    }

    proof fn t_like_sym(a: Song, b: Song) {
        lemma_song_like_sym(a, b);
    }

    proof fn t_like_trans(a: Song, b: Song, c: Song) {
        lemma_song_like_trans(a, b, c);
    }

    proof fn absorb_deterministic(
        pre1: Song,
        post1: Song,
        pre2: Song,
        post2: Song,
        op: ValidOperation,
    ) {
        lemma_absorb_deterministic(pre1, post1, pre2, post2, op);
    }

    proof fn absorb_congruent(pre1: Song, pre2: Song, op: ValidOperation, post: Song) {
        lemma_absorb_congruent(pre1, pre2, op, post);
    }

    fn duplicate(&self) -> (r: Song) {
        let r = self.clone();
        proof {
            lemma_song_like_wf(*self, r);
        }
        r
    }

    fn absorb(&mut self, operation: ValidOperation) {
        self.absorb_operation(operation);
    }
}

impl crate::left_right::DuplicateOp for ValidOperation {
    fn duplicate(&self) -> (r: ValidOperation) {
        self.clone()
    }
}

} // verus!
