//! The audio worker: drains the command ring, keeps the playback state and
//! the live voice, and publishes status through the triple buffer. The
//! mixing of taps into output samples is the embedding application's part;
//! every decision about what plays is made here.

use vstd::prelude::*;

use crate::left_right::Reader;
use crate::manager::{OutputConfig, ToWorkerMsg};
use crate::playback::{
    playback_started, voice_slot_rel, PlaybackSettings, PlaybackState, PlaybackStatus,
};
use crate::sample::Sample;
use crate::song::Song;
use crate::voice::{SamplePlayer, VoiceTap};

verus! {

#[verifier::external_type_specification]
#[verifier::external_body]
#[verifier::reject_recursive_types(T)]
pub struct ExProducer<T>(rtrb::Producer<T>);

#[verifier::external_type_specification]
#[verifier::external_body]
#[verifier::reject_recursive_types(T)]
pub struct ExConsumer<T>(rtrb::Consumer<T>);

#[verifier::external_type_specification]
#[verifier::external_body]
#[verifier::reject_recursive_types(T)]
pub struct ExInput<T: Send>(triple_buffer::Input<T>);

#[verifier::external_type_specification]
#[verifier::external_body]
#[verifier::reject_recursive_types(T)]
pub struct ExOutput<T: Send>(triple_buffer::Output<T>);

/// Relies on `rtrb::RingBuffer::new`: a bounded wait-free single-producer
/// single-consumer queue of the given capacity, handed out as its two ends.
#[verifier::external_body]
pub fn command_ring_new(capacity: usize) -> (rtrb::Producer<ToWorkerMsg>, rtrb::Consumer<
    ToWorkerMsg,
>) {
    rtrb::RingBuffer::new(capacity)
}

/// Relies on `rtrb::Producer::push`: the message is delivered in order
/// unless the ring is full right now; whether it is full depends on the
/// consumer's progress, so no more is promised.
#[verifier::external_body]
pub fn command_push(p: &mut rtrb::Producer<ToWorkerMsg>, msg: ToWorkerMsg) -> bool {
    p.push(msg).is_ok()
}

/// Relies on `rtrb::Consumer::pop`: takes the oldest message if one is
/// there; what arrives depends on the producer's progress, so no more is
/// promised.
#[verifier::external_body]
pub fn command_pop(c: &mut rtrb::Consumer<ToWorkerMsg>) -> Option<ToWorkerMsg> {
    c.pop().ok()
}

/// Relies on `triple_buffer::triple_buffer`: a wait-free three-slot
/// hand-off; readers always see the latest completely written value.
#[verifier::external_body]
pub fn status_channel_new() -> (triple_buffer::Input<Option<PlaybackStatus>>,
    triple_buffer::Output<Option<PlaybackStatus>>) {
    triple_buffer::triple_buffer(&None)
}

/// Relies on `triple_buffer::Input::write`: publishes the value; never
/// blocks.
#[verifier::external_body]
pub fn status_push(
    i: &mut triple_buffer::Input<Option<PlaybackStatus>>,
    v: Option<PlaybackStatus>,
) {
    i.write(v)
}

/// Relies on `triple_buffer::Output::read`: yields the latest value the
/// input side published; never blocks.
#[verifier::external_body]
pub fn status_take(o: &mut triple_buffer::Output<Option<PlaybackStatus>>) -> Option<
    PlaybackStatus,
> {
    *o.read()
}

/// The audio worker's whole state.
pub struct LiveAudio {
    /// The token for reading song snapshots.
    pub song_reader: Reader,
    /// Song playback, when any.
    pub playback_state: Option<PlaybackState>,
    /// The ad-hoc live voice, when any.
    pub live_note: Option<SamplePlayer>,
    /// The receiving end of the command ring.
    pub manager: rtrb::Consumer<ToWorkerMsg>,
    /// The publishing end of the status hand-off.
    pub state_sender: triple_buffer::Input<Option<PlaybackStatus>>,
    /// The stream's shape.
    pub config: OutputConfig,
}

impl LiveAudio {
    /// The worker's invariant.
    pub open spec fn wf(self) -> bool {
        &&& self.config.wf()
        &&& self.playback_state matches Some(s) ==> (s.wf() && s.samplerate
            == self.config.sample_rate)
        &&& self.live_note matches Some(v) ==> (v.wf() && !v.spec_done() && v.out_rate
            == self.config.sample_rate)
    }

    /// A fresh worker with nothing playing.
    pub fn new(
        song_reader: Reader,
        manager: rtrb::Consumer<ToWorkerMsg>,
        state_sender: triple_buffer::Input<Option<PlaybackStatus>>,
        config: OutputConfig,
    ) -> (r: LiveAudio)
        requires
            config.wf(),
        ensures
            r.wf(),
            r.playback_state is None,
            r.live_note is None,
            r.config == config,
    {
        LiveAudio {
            song_reader,
            playback_state: None,
            live_note: None,
            manager,
            state_sender,
            config,
        }
    }

    /// Give the reader token back for release when the stream closes.
    pub fn into_reader(self) -> (r: Reader)
        ensures
            r == self.song_reader,
    {
        self.song_reader
    }

    /// Apply one editor command to the worker state against the current
    /// song snapshot.
    pub fn handle_message(&mut self, song: &Song, msg: ToWorkerMsg)
        requires
            old(self).wf(),
            song.wf(),
        ensures
            final(self).wf(),
            final(self).config == old(self).config,
            msg matches ToWorkerMsg::StopPlayback ==> (final(self).playback_state is None
                && final(self).live_note == old(self).live_note),
            msg matches ToWorkerMsg::StopLiveNote ==> (final(self).live_note is None && final(self).playback_state == old(self).playback_state),
            msg matches ToWorkerMsg::Playback(settings) ==> (final(self).live_note == old(self).live_note && playback_started(
                *song,
                old(self).config.sample_rate,
                settings,
                final(self).playback_state,
            )),
            msg matches ToWorkerMsg::PlayEvent(note) ==> (final(self).playback_state == old(self).playback_state && voice_slot_rel(
                *song,
                old(self).config.sample_rate,
                note,
                old(self).live_note,
                final(self).live_note,
            )),
    {
        match msg {
            ToWorkerMsg::StopPlayback => {
                self.playback_state = None;
            },
            ToWorkerMsg::Playback(settings) => {
                self.playback_state = PlaybackState::new(song, self.config.sample_rate, settings);
            },
            ToWorkerMsg::PlayEvent(note) => {
                let instr = note.sample_instr as usize;
                if instr < crate::song::MAX_SAMPLES_INSTR && note.note.value <= 199 {
                    match &song.samples[instr] {
                        Some(pair) => {
                            if pair.1.len_with_pad() > 2 * crate::sample::PAD_SIZE_EACH {
                                let player = SamplePlayer::new(
                                    pair.1.clone(),
                                    pair.0,
                                    self.config.sample_rate,
                                    note.note,
                                );
                                self.live_note = Some(player);
                            } else {
                                // a payload-free sample still cuts the old tail
                                self.live_note = None;
                            }
                        },
                        None => {},
                    }
                }
            },
            ToWorkerMsg::StopLiveNote => {
                self.live_note = None;
            },
        }
    }

    /// Drain up to `max_commands` messages from the ring and apply each,
    /// then report whether anything is playing at all. A callback does
    /// this once before it mixes; with nothing playing it leaves the
    /// output untouched. The budget keeps one callback's work bounded;
    /// what it leaves behind, the next callback drains first, in order.
    pub fn fill_internal_buffer(&mut self, song: &Song, max_commands: usize) -> (work: bool)
        requires
            old(self).wf(),
            song.wf(),
        ensures
            final(self).wf(),
            final(self).config == old(self).config,
            work == (final(self).live_note is Some || final(self).playback_state is Some),
    {
        let mut budget = max_commands;
        while budget > 0
            invariant
                self.wf(),
                self.config == old(self).config,
                song.wf(),
            decreases budget,
        {
            match command_pop(&mut self.manager) {
                Some(msg) => {
                    self.handle_message(song, msg);
                },
                None => {
                    break ;
                },
            }
            budget = budget - 1;
        }
        match (&self.live_note, &self.playback_state) {
            (None, None) => false,
            _ => true,
        }
    }

    /// Whether the song playback is still running.
    pub fn playback_is_active(&self) -> (r: bool)
        ensures
            r == (self.playback_state is Some),
    {
        match &self.playback_state {
            Some(_) => true,
            None => false,
        }
    }

    /// The live voice's next tap, with the sample it reads; the voice is
    /// dropped the moment it finishes.
    pub fn next_live_tap(&mut self) -> (r: Option<(Sample, VoiceTap)>)
        requires
            old(self).wf(),
        ensures
            final(self).wf(),
            final(self).config == old(self).config,
            final(self).playback_state == old(self).playback_state,
            old(self).live_note is None ==> r is None && final(self).live_note is None,
            old(self).live_note matches Some(v) ==> (r matches Some(p) && p.0 == v.sample
                && p.1 == (VoiceTap { index: v.int_pos, frac: v.frac })),
            old(self).live_note matches Some(v) ==> final(self).live_note == (
            if v.spec_stepped().spec_done() {
                Option::<SamplePlayer>::None
            } else {
                Some(v.spec_stepped())
            }),
    {
        let taken = self.live_note.take();
        match taken {
            Some(mut v) => {
                let sample = v.sample.clone();
                let tap = match v.next() {
                    Some(t) => t,
                    None => {
                        proof {
                            assert(false);
                        }
                        VoiceTap { index: 0, frac: 0 }
                    },
                };
                if !v.check_position() {
                    self.live_note = Some(v);
                }
                Some((sample, tap))
            },
            None => None,
        }
    }

    /// One playback voice's next tap; `channel` picks the slot.
    pub fn playback_voice_tap(&mut self, channel: usize) -> (r: Option<(Sample, VoiceTap)>)
        requires
            old(self).wf(),
            channel < crate::MAX_CHANNELS,
        ensures
            final(self).wf(),
            final(self).config == old(self).config,
            final(self).live_note == old(self).live_note,
            old(self).playback_state is None ==> r is None,
    {
        let mut taken = self.playback_state.take();
        let r = match &mut taken {
            Some(state) => state.next_voice_tap(channel),
            None => None,
        };
        self.playback_state = taken;
        r
    }

    /// Advance playback by one output frame; once it reports done, it is
    /// dropped, and the next callback treats the song as inactive.
    pub fn playback_step(&mut self, song: &Song)
        requires
            old(self).wf(),
            song.wf(),
        ensures
            final(self).wf(),
            final(self).config == old(self).config,
            final(self).live_note == old(self).live_note,
    {
        let mut taken = self.playback_state.take();
        match &mut taken {
            Some(state) => {
                state.step(song);
                if !state.is_done() {
                    self.playback_state = taken;
                }
            },
            None => {},
        }
    }

    /// Publish where playback stands through the triple buffer.
    pub fn send_state(&mut self)
        requires
            old(self).wf(),
        ensures
            final(self).wf(),
            final(self).playback_state == old(self).playback_state,
            final(self).live_note == old(self).live_note,
            final(self).config == old(self).config,
    {
        let status = match &self.playback_state {
            Some(state) => Some(state.get_status()),
            None => None,
        };
        status_push(&mut self.state_sender, status);
    }
}

} // verus!
