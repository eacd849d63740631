//! The playback state machine: a row/tick/frame cursor over the patterns
//! and orderlist, owning one voice per channel.

use vstd::prelude::*;

use vstd::pervasive::VecAdditionalExecFns;

use crate::note_event::NoteEvent;
use crate::pattern::{event_of, InPatternPosition};
use crate::sample::{Sample, PAD_SIZE_EACH};
use crate::song::{PatternOrder, Song, MAX_PATTERNS};
use crate::voice::{SamplePlayer, VoiceTap};

verus! {

/// What to play: one pattern on its own, or the song from an orderlist
/// position.
#[derive(Debug, Clone, Copy, PartialEq, Eq, Structural)]
pub enum PlaybackSettings {
    Pattern { idx: u8, should_loop: bool },
    Order { idx: u16, should_loop: bool },
}

impl Default for PlaybackSettings {
    /// The whole song, once.
    fn default() -> (r: Self)
        ensures
            r == (PlaybackSettings::Order { idx: 0u16, should_loop: false }),
    {
        PlaybackSettings::Order { idx: 0, should_loop: false }
    }
}

/// Where playback stands.
#[derive(Debug, Clone, Copy, PartialEq, Eq, Structural)]
pub struct PlaybackPosition {
    /// `Some` when the orderlist drives playback; `None` when one pattern
    /// plays on its own.
    pub order: Option<u16>,
    pub pattern: u8,
    pub row: u16,
    /// With the orderlist this loops the song; alone it loops the pattern.
    pub loop_active: bool,
}

/// What the audio worker reports back about playback.
#[derive(Debug, Clone, Copy, PartialEq, Eq, Structural)]
pub struct PlaybackStatus {
    pub position: PlaybackPosition,
}

/// The orderlist walk from `start` reaches `end` over `SkipOrder` entries
/// alone and finds pattern `p` there.
pub open spec fn order_walk_found(song: Song, start: int, end: int, p: u8) -> bool {
    &&& start <= end
    &&& forall|k: int| start <= k < end ==> #[trigger] song.spec_get_order(k)
        == PatternOrder::SkipOrder
    &&& song.spec_get_order(end) == PatternOrder::Number(p)
}

/// The orderlist walk from `start` reaches `end` over `SkipOrder` entries
/// alone and the song ends there.
pub open spec fn order_walk_ended(song: Song, start: int, end: int) -> bool {
    &&& start <= end
    &&& forall|k: int| start <= k < end ==> #[trigger] song.spec_get_order(k)
        == PatternOrder::SkipOrder
    &&& song.spec_get_order(end) == PatternOrder::EndOfSong
}

/// The start position the settings call for: the named pattern alone, or
/// the first playable pattern the orderlist walk finds.
pub open spec fn start_position_rel(settings: PlaybackSettings, song: Song, pos: PlaybackPosition) -> bool {
    match settings {
        PlaybackSettings::Pattern { idx, should_loop } => pos == (PlaybackPosition {
            order: Option::<u16>::None,
            pattern: idx,
            row: 0u16,
            loop_active: should_loop,
        }),
        PlaybackSettings::Order { idx, should_loop } => {
            &&& pos.loop_active == should_loop
            &&& pos.row == 0u16
            &&& (pos.order matches Some(e) && order_walk_found(
                song,
                idx as int,
                e as int,
                pos.pattern,
            ))
        },
    }
}

/// The exact relation of one row advance: the row moves on inside the
/// pattern, or wraps to zero and the next pattern comes from the loop flag
/// and the orderlist; `cont` is false exactly when playback is over, which
/// with the orderlist driving means the walk met the song's end (twice,
/// from the top as well, when looping).
pub open spec fn row_step_rel(
    pre: PlaybackPosition,
    post: PlaybackPosition,
    song: Song,
    cont: bool,
) -> bool {
    let rows = song.patterns@[pre.pattern as int].spec_rows();
    &&& post.loop_active == pre.loop_active
    &&& pre.row + 1 < rows ==> (cont && post.row == pre.row + 1 && post.pattern == pre.pattern
        && post.order == pre.order)
    &&& pre.row + 1 >= rows ==> post.row == 0
    &&& (pre.row + 1 >= rows && pre.order is None) ==> (cont == pre.loop_active && post.pattern
        == pre.pattern && post.order == pre.order)
    &&& (pre.order matches Some(o) ==> ((pre.row + 1 >= rows && cont) ==> (
    post.order matches Some(e) && (order_walk_found(song, o as int, e as int, post.pattern) || (
    pre.loop_active && (exists|m: int| order_walk_ended(song, o as int, m)) && order_walk_found(
        song,
        0,
        e as int,
        post.pattern,
    ))))))
    &&& (pre.order matches Some(o) ==> ((pre.row + 1 >= rows && !cont) ==> ((exists|e: int|
        order_walk_ended(song, o as int, e)) && (pre.loop_active ==> exists|e: int|
        order_walk_ended(song, 0, e)))))
}

impl PlaybackPosition {
    /// Bounds that hold of every position this module creates.
    pub open spec fn wf(self) -> bool {
        self.pattern < MAX_PATTERNS as u8
    }

    /// Start position for the given settings; `None` when the orderlist
    /// has no playable pattern from `idx` on.
    pub fn new(settings: PlaybackSettings, song: &Song) -> (r: Option<PlaybackPosition>)
        requires
            song.wf(),
        ensures
            r matches Some(p) ==> (p.wf() && p.row == 0u16 && start_position_rel(
                settings,
                *song,
                p,
            )),
            settings matches PlaybackSettings::Pattern { idx, should_loop } ==> ((r is Some)
                <==> idx < MAX_PATTERNS as u8),
            settings matches PlaybackSettings::Order { idx, should_loop } ==> (r is None
                ==> exists|e: int| order_walk_ended(*song, idx as int, e)),
    {
        match settings {
            PlaybackSettings::Pattern { idx, should_loop } => {
                if idx < MAX_PATTERNS as u8 {
                    Some(
                        PlaybackPosition {
                            order: None,
                            pattern: idx,
                            row: 0,
                            loop_active: should_loop,
                        },
                    )
                } else {
                    None
                }
            },
            PlaybackSettings::Order { idx, should_loop } => {
                let mut order = idx;
                match song.next_pattern(&mut order) {
                    Some(pattern) => Some(
                        PlaybackPosition {
                            order: Some(order),
                            pattern,
                            row: 0,
                            loop_active: should_loop,
                        },
                    ),
                    None => {
                        proof {
                            assert(order_walk_ended(*song, idx as int, order as int));
                        }
                        None
                    },
                }
            },
        }
    }

    /// Advance one row. Returns false when playback is over: the pattern
    /// finished and neither looping nor the orderlist provides more.
    pub fn step_row(&mut self, song: &Song) -> (cont: bool)
        requires
            old(self).wf(),
            song.wf(),
        ensures
            final(self).wf(),
            row_step_rel(*old(self), *final(self), *song, cont),
    {
        let rows = song.patterns[self.pattern as usize].row_count();
        if (self.row as u32) + 1 < rows as u32 {
            self.row = self.row + 1;
            return true;
        }
        {
            self.row = 0;
            match self.order {
                Some(order_now) => {
                    let mut order = order_now;
                    match song.next_pattern(&mut order) {
                        Some(pattern) => {
                            self.pattern = pattern;
                            self.order = Some(order);
                            true
                        },
                        None => {
                            proof {
                                assert(order_walk_ended(*song, order_now as int, order as int));
                            }
                            if !self.loop_active {
                                return false;
                            }
                            // the song loops: try once more from the top
                            let mut order: u16 = 0;
                            match song.next_pattern(&mut order) {
                                Some(pattern) => {
                                    self.pattern = pattern;
                                    self.order = Some(order);
                                    true
                                },
                                None => {
                                    proof {
                                        assert(order_walk_ended(*song, 0, order as int));
                                    }
                                    false
                                },
                            }
                        },
                    }
                },
                None => self.loop_active,
            }
        }
    }
}

/// The voice slot after an event: a filled sample slot always replaces
/// whatever played there, with a fresh voice — or with nothing when the
/// sample has no payload, so the old tail still ceases at once. An event
/// naming an empty slot (or carrying values outside the model's bounds)
/// leaves the previous voice playing.
pub open spec fn voice_slot_rel(
    song: Song,
    samplerate: u32,
    ev: NoteEvent,
    prev: Option<SamplePlayer>,
    cur: Option<SamplePlayer>,
) -> bool {
    if ev.sample_instr < crate::song::MAX_SAMPLES_INSTR as u8 && ev.note.wf() {
        match song.samples@[ev.sample_instr as int] {
            Some(slot) => if slot.1.spec_len_with_pad() > 2 * PAD_SIZE_EACH {
                &&& cur matches Some(v)
                &&& v.sample == slot.1
                &&& v.meta == slot.0
                &&& v.note == ev.note
                &&& v.int_pos == PAD_SIZE_EACH
                &&& v.frac == 0u32
                &&& v.out_rate == samplerate
                &&& v.step_size == crate::voice::spec_step_size(
                    slot.0.sample_rate,
                    samplerate,
                    slot.0.base_note,
                    ev.note,
                )
                &&& v.wf()
                &&& !v.spec_done()
            } else {
                cur is None
            },
            None => cur == prev,
        }
    } else {
        cur == prev
    }
}

/// Voices after filling one row of a pattern: every channel the row binds
/// gets a fresh voice per `voice_slot_rel`; every other channel keeps its
/// slot.
pub open spec fn row_voices_rel(
    song: Song,
    samplerate: u32,
    pattern: int,
    row: u16,
    pre: Seq<Option<SamplePlayer>>,
    post: Seq<Option<SamplePlayer>>,
) -> bool {
    &&& post.len() == pre.len()
    &&& forall|ch: u8|
        ch < crate::MAX_CHANNELS as u8 ==> (match event_of(
            song.patterns@[pattern].events(),
            InPatternPosition { row, channel: ch },
        ) {
            Some(ev) => voice_slot_rel(song, samplerate, ev, pre[ch as int], #[trigger] post[ch as int]),
            None => post[ch as int] == pre[ch as int],
        })
}

/// Full playback state: the cursor, the countdowns and one voice slot per
/// channel.
#[derive(Debug)]
pub struct PlaybackState {
    pub position: PlaybackPosition,
    pub is_done: bool,
    /// Ticks left in this row; counts down.
    pub tick: u8,
    /// Frames left in this tick; counts down.
    pub frame: u32,
    /// Output frames per second.
    pub samplerate: u32,
    /// One slot per channel; a stored voice is live, never finished.
    pub voices: Vec<Option<SamplePlayer>>,
}

/// Output frames in one tick: twice the sample rate over the tempo.
pub open spec fn spec_frames_per_tick(samplerate: u32, tempo: u8) -> u32 {
    ((samplerate * 2) as int / (tempo as int)) as u32
}

/// Output frames in one tick: twice the sample rate over the tempo.
pub fn frames_per_tick(samplerate: u32, tempo: u8) -> (r: u32)
    requires
        1 <= samplerate <= 0x7FFF_FFFFu32,
        tempo >= 1,
    ensures
        r == spec_frames_per_tick(samplerate, tempo),
{
    (samplerate * 2) / (tempo as u32)
}

/// The outcome of starting playback: a state exists exactly when the
/// settings name something playable, and it stands at row zero of the
/// position the settings call for, with that row's voices started and the
/// countdowns loaded.
pub open spec fn playback_started(
    song: Song,
    samplerate: u32,
    settings: PlaybackSettings,
    r: Option<PlaybackState>,
) -> bool {
    &&& (r matches Some(s) ==> {
        &&& s.wf()
        &&& !s.is_done
        &&& s.samplerate == samplerate
        &&& s.tick == song.initial_speed
        &&& s.frame == spec_frames_per_tick(samplerate, song.initial_tempo)
        &&& s.position.row == 0u16
        &&& start_position_rel(settings, song, s.position)
        &&& row_voices_rel(
            song,
            samplerate,
            s.position.pattern as int,
            0u16,
            Seq::new(crate::MAX_CHANNELS as nat, |i: int| Option::<SamplePlayer>::None),
            s.voices@,
        )
    })
    &&& (settings matches PlaybackSettings::Pattern { idx, should_loop } ==> ((r is Some)
        <==> idx < MAX_PATTERNS as u8))
    &&& (settings matches PlaybackSettings::Order { idx, should_loop } ==> (r is None
        ==> exists|e: int| order_walk_ended(song, idx as int, e)))
}

impl PlaybackState {
    /// Structural invariant.
    pub open spec fn wf(self) -> bool {
        &&& 1 <= self.samplerate <= 0x7FFF_FFFFu32
        &&& self.position.wf()
        &&& self.voices@.len() == crate::MAX_CHANNELS
        &&& forall|i: int|
            0 <= i < crate::MAX_CHANNELS ==> ((#[trigger] self.voices@[i]) matches Some(v) ==> (
            v.wf() && !v.spec_done() && v.out_rate == self.samplerate))
    }

    /// Where playback stands.
    pub fn get_status(&self) -> (r: PlaybackStatus)
        ensures
            r == (PlaybackStatus { position: self.position }),
    {
        PlaybackStatus { position: self.position }
    }

    /// Whether playback has ended.
    pub fn is_done(&self) -> (r: bool)
        ensures
            r == self.is_done,
    {
        self.is_done
    }

    /// Start playback against a song snapshot. `None` when the settings
    /// name nothing playable.
    ///
    /// The voice table is built afresh here; a deployment that must not
    /// allocate on the audio thread keeps a prebuilt table instead.
    pub fn new(song: &Song, samplerate: u32, settings: PlaybackSettings) -> (r: Option<
        PlaybackState,
    >)
        requires
            song.wf(),
            1 <= samplerate <= 0x7FFF_FFFFu32,
        ensures
            playback_started(*song, samplerate, settings, r),
    {
        let position = match PlaybackPosition::new(settings, song) {
            Some(p) => p,
            None => {
                return None;
            },
        };
        let mut voices: Vec<Option<SamplePlayer>> = Vec::new();
        let mut i: usize = 0;
        while i < crate::MAX_CHANNELS
            invariant
                i <= crate::MAX_CHANNELS,
                voices@.len() == i,
                forall|k: int| 0 <= k < i ==> #[trigger] voices@[k] is None,
            decreases crate::MAX_CHANNELS - i,
        {
            voices.push(None);
            i += 1;
        }
        let mut out = PlaybackState {
            position,
            is_done: false,
            tick: song.initial_speed,
            frame: frames_per_tick(samplerate, song.initial_tempo),
            samplerate,
            voices,
        };
        proof {
            assert(out.voices@ =~= Seq::new(
                crate::MAX_CHANNELS as nat,
                |i: int| Option::<SamplePlayer>::None,
            ));
        }
        out.create_sample_players(song);
        Some(out)
    }

    /// Change the output rate; every live voice keeps its phase.
    pub fn set_samplerate(&mut self, samplerate: u32)
        requires
            old(self).wf(),
            1 <= samplerate <= 0x7FFF_FFFFu32,
        ensures
            final(self).wf(),
            final(self).samplerate == samplerate,
            final(self).position == old(self).position,
            final(self).is_done == old(self).is_done,
    {
        self.samplerate = samplerate;
        let mut ch: usize = 0;
        while ch < crate::MAX_CHANNELS
            invariant
                ch <= crate::MAX_CHANNELS,
                self.voices@.len() == crate::MAX_CHANNELS,
                1 <= self.samplerate <= 0x7FFF_FFFFu32,
                self.samplerate == samplerate,
                self.position == old(self).position,
                self.is_done == old(self).is_done,
                self.position.wf(),
                forall|i: int|
                    0 <= i < ch ==> ((#[trigger] self.voices@[i]) matches Some(v) ==> (v.wf()
                        && !v.spec_done() && v.out_rate == samplerate)),
                forall|i: int|
                    ch <= i < crate::MAX_CHANNELS ==> ((#[trigger] self.voices@[i]) matches Some(
                        v,
                    ) ==> (v.wf() && !v.spec_done() && v.out_rate == old(self).samplerate)),
            decreases crate::MAX_CHANNELS - ch,
        {
            let mut slot: Option<SamplePlayer> = None;
            self.voices.set_and_swap(ch, &mut slot);
            let updated = match slot {
                Some(mut v) => {
                    let ghost v0 = v;
                    v.set_out_samplerate(samplerate);
                    proof {
                        assert(v.int_pos == v0.int_pos);
                        assert(!v.spec_done());
                    }
                    Some(v)
                },
                None => None,
            };
            self.voices.set(ch, updated);
            ch += 1;
        }
    }

    /// Start a voice for every event on the current row whose sample slot
    /// is filled. Later events win when two address one channel.
    pub fn create_sample_players(&mut self, song: &Song)
        requires
            old(self).wf(),
            song.wf(),
        ensures
            final(self).wf(),
            final(self).position == old(self).position,
            final(self).is_done == old(self).is_done,
            final(self).tick == old(self).tick,
            final(self).frame == old(self).frame,
            final(self).samplerate == old(self).samplerate,
            row_voices_rel(
                *song,
                old(self).samplerate,
                old(self).position.pattern as int,
                old(self).position.row,
                old(self).voices@,
                final(self).voices@,
            ),
    {
        let pattern = &song.patterns[self.position.pattern as usize];
        let (start, end) = pattern.row_range(self.position.row);
        let ghost events = pattern.events();
        let ghost row = self.position.row;
        let mut i: usize = start;
        while i < end
            invariant
                start <= i <= end <= events.len(),
                events == song.patterns@[self.position.pattern as int].events(),
                pattern.events() == events,
                crate::pattern::events_sorted(events),
                song.wf(),
                self.position == old(self).position,
                self.is_done == old(self).is_done,
                self.tick == old(self).tick,
                self.frame == old(self).frame,
                self.samplerate == old(self).samplerate,
                self.wf(),
                row == self.position.row,
                forall|k: int|
                    start <= k < end ==> (#[trigger] events[k]).0.row == row
                        && events[k].0.channel < crate::MAX_CHANNELS as u8,
                forall|k: int, l: int|
                    start <= k < l < end ==> (#[trigger] events[k]).0.channel < (
                    #[trigger] events[l]).0.channel,
                forall|ch: u8|
                    #![trigger self.voices@[ch as int]]
                    ch < crate::MAX_CHANNELS as u8 ==> ((exists|k: int|
                        start <= k < i && (#[trigger] events[k]).0.channel == ch) ==> exists|
                        k: int,
                    |
                        start <= k < i && (#[trigger] events[k]).0.channel == ch
                            && voice_slot_rel(
                            *song,
                            self.samplerate,
                            events[k].1,
                            old(self).voices@[ch as int],
                            self.voices@[ch as int],
                        )),
                forall|ch: u8|
                    #![trigger old(self).voices@[ch as int]]
                    ch < crate::MAX_CHANNELS as u8 ==> (!(exists|k: int|
                        start <= k < i && (#[trigger] events[k]).0.channel == ch)
                        ==> self.voices@[ch as int] == old(self).voices@[ch as int]),
            decreases end - i,
        {
            let (pos, ev) = pattern.event_at(i);
            let ch = pos.channel as usize;
            let instr = ev.sample_instr as usize;
            if instr < crate::song::MAX_SAMPLES_INSTR && ev.note.value <= 199 {
                let slot = &song.samples[instr];
                match slot {
                    Some(pair) => {
                        if pair.1.len_with_pad() > 2 * PAD_SIZE_EACH {
                            let player = SamplePlayer::new(
                                pair.1.clone(),
                                pair.0,
                                self.samplerate,
                                ev.note,
                            );
                            self.voices.set(ch, Some(player));
                        } else {
                            // a payload-free sample still silences the channel
                            self.voices.set(ch, None);
                        }
                    },
                    None => {},
                }
            }
            proof {
                let ci = events[i as int].0.channel;
                // channels are unique on a row: nothing before i used ci
                assert(!(exists|k: int|
                    start <= k < i && (#[trigger] events[k]).0.channel == ci)) by {
                    if exists|k: int| start <= k < i && (#[trigger] events[k]).0.channel == ci {
                        let k = choose|k: int|
                            start <= k < i && (#[trigger] events[k]).0.channel == ci;
                        assert(events[k].0.channel < events[i as int].0.channel);
                    }
                }
                assert(voice_slot_rel(
                    *song,
                    self.samplerate,
                    events[i as int].1,
                    old(self).voices@[ci as int],
                    self.voices@[ci as int],
                ));
            }
            i += 1;
        }
        proof {
            assert forall|ch: u8|
                #![trigger self.voices@[ch as int]]
                ch < crate::MAX_CHANNELS as u8 implies (match event_of(
                events,
                InPatternPosition { row, channel: ch },
            ) {
                Some(ev) => voice_slot_rel(
                    *song,
                    self.samplerate,
                    ev,
                    old(self).voices@[ch as int],
                    self.voices@[ch as int],
                ),
                None => self.voices@[ch as int] == old(self).voices@[ch as int],
            }) by {
                let q = InPatternPosition { row, channel: ch };
                if crate::pattern::has_pos(events, q) {
                    let j = choose|j: int|
                        0 <= j < events.len() && (#[trigger] events[j]).0 == q;
                    assert(start <= j < end) by {
                        if j < start {
                            assert(events[j].0.row < row);
                        }
                        if j >= end {
                            assert(events[j].0.row > row);
                        }
                    }
                    assert(exists|k: int|
                        start <= k < end && (#[trigger] events[k]).0.channel == ch);
                    let w = choose|k: int|
                        start <= k < end && (#[trigger] events[k]).0.channel == ch;
                    assert(w == j) by {
                        if w < j {
                            assert(events[w].0.channel < events[j].0.channel);
                        } else if j < w {
                            assert(events[j].0.channel < events[w].0.channel);
                        }
                    }
                    assert(event_of(events, q) == Some(events[j].1)) by {
                        let m = choose|m: int|
                            0 <= m < events.len() && (#[trigger] events[m]).0 == q;
                        if m < j {
                            assert(crate::pattern::pos_lt(events[m].0, events[j].0));
                        } else if j < m {
                            assert(crate::pattern::pos_lt(events[j].0, events[m].0));
                        }
                    }
                } else {
                    if exists|k: int| start <= k < end && (#[trigger] events[k]).0.channel == ch {
                        let w = choose|k: int|
                            start <= k < end && (#[trigger] events[k]).0.channel == ch;
                        assert(events[w].0 == q);
                        assert(crate::pattern::has_pos(events, q));
                    }
                }
            }
        }
    }

    /// Advance one output frame's worth of time: count frames down, then
    /// ticks, then advance the row and start that row's voices; mark the
    /// state done when the song ends.
    pub fn step(&mut self, song: &Song)
        requires
            old(self).wf(),
            song.wf(),
        ensures
            final(self).wf(),
            final(self).samplerate == old(self).samplerate,
            old(self).is_done ==> *final(self) == *old(self),
            !old(self).is_done && old(self).frame > 0 ==> (final(self).frame == old(self).frame - 1 && final(self).tick == old(self).tick && final(self).position == old(self).position && final(self).is_done == old(self).is_done && final(self).voices@ == old(self).voices@),
            !old(self).is_done && old(self).frame == 0 ==> final(self).frame
                == spec_frames_per_tick(old(self).samplerate, song.initial_tempo),
            (!old(self).is_done && old(self).frame == 0 && old(self).tick > 0) ==> (final(self).tick == old(self).tick - 1 && final(self).position == old(self).position && final(self).is_done == old(self).is_done && final(self).voices@ == old(self).voices@),
            (!old(self).is_done && old(self).frame == 0 && old(self).tick == 0) ==> final(self).tick == song.initial_speed,
            (!old(self).is_done && old(self).frame == 0 && old(self).tick == 0) ==> {
                &&& row_step_rel(
                    old(self).position,
                    final(self).position,
                    *song,
                    !final(self).is_done,
                )
                &&& (!final(self).is_done ==> row_voices_rel(
                    *song,
                    old(self).samplerate,
                    final(self).position.pattern as int,
                    final(self).position.row,
                    old(self).voices@,
                    final(self).voices@,
                ))
                &&& (final(self).is_done ==> final(self).voices@ == old(self).voices@)
            },
            final(self).is_done ==> (old(self).is_done || (old(self).frame == 0 && old(
                self,
            ).tick == 0)),
    {
        if self.is_done {
            return ;
        }
        if self.frame > 0 {
            self.frame = self.frame - 1;
            return ;
        }
        self.frame = frames_per_tick(self.samplerate, song.initial_tempo);
        if self.tick > 0 {
            self.tick = self.tick - 1;
            return ;
        }
        self.tick = song.initial_speed;
        let advanced = self.position.step_row(song);
        if advanced {
            self.create_sample_players(song);
        } else {
            self.is_done = true;
        }
    }

    /// Take the next tap of the voice on `channel`, handing back the sample
    /// it reads from; the slot is cleared as soon as the voice finishes.
    pub fn next_voice_tap(&mut self, channel: usize) -> (r: Option<(Sample, VoiceTap)>)
        requires
            old(self).wf(),
            channel < crate::MAX_CHANNELS,
        ensures
            final(self).wf(),
            final(self).samplerate == old(self).samplerate,
            final(self).position == old(self).position,
            final(self).is_done == old(self).is_done,
            final(self).tick == old(self).tick,
            final(self).frame == old(self).frame,
            old(self).voices@[channel as int] is None ==> r is None && final(self).voices@
                == old(self).voices@,
            old(self).voices@[channel as int] matches Some(v) ==> (r matches Some(p) && p.0
                == v.sample && p.1 == (VoiceTap { index: v.int_pos, frac: v.frac })
                && PAD_SIZE_EACH <= p.1.index <= v.sample.spec_len_with_pad() - PAD_SIZE_EACH),
            old(self).voices@[channel as int] matches Some(v) ==> final(self).voices@ == old(
                self,
            ).voices@.update(
                channel as int,
                if v.spec_stepped().spec_done() {
                    Option::<SamplePlayer>::None
                } else {
                    Some(v.spec_stepped())
                },
            ),
    {
        let mut slot: Option<SamplePlayer> = None;
        self.voices.set_and_swap(channel, &mut slot);
        match slot {
            Some(mut v) => {
                let sample = v.sample.clone();
                let tap = match v.next() {
                    Some(t) => t,
                    None => {
                        // a stored voice is never finished
                        proof {
                            assert(false);
                        }
                        VoiceTap { index: 0, frac: 0 }
                    },
                };
                if v.check_position() {
                    self.voices.set(channel, None);
                    proof {
                        assert(self.voices@ =~= old(self).voices@.update(
                            channel as int,
                            Option::<SamplePlayer>::None,
                        ));
                    }
                } else {
                    self.voices.set(channel, Some(v));
                    proof {
                        assert(self.voices@ =~= old(self).voices@.update(
                            channel as int,
                            self.voices@[channel as int],
                        ));
                    }
                }
                Some((sample, tap))
            },
            None => {
                self.voices.set(channel, None);
                proof {
                    assert(self.voices@ =~= old(self).voices@);
                }
                None
            },
        }
    }
}

} // verus!
