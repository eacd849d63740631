//! The editor-side manager: it owns the song writer, the sample retainer
//! and, while a stream runs, the sending ends of the worker channels.

use vstd::prelude::*;

use crate::left_right::{WriteGuard, Writer};
use crate::live_audio::{command_ring_new, status_channel_new, status_take, LiveAudio};
use crate::note_event::NoteEvent;
use crate::playback::{PlaybackSettings, PlaybackStatus};
use crate::sample::{retained_handles, Collector};
use crate::song::{op_valid, song_op_applied, SongOperation, ValidOperation, Song};

verus! {

/// Everything the editor can ask of the audio worker.
#[derive(Debug, Clone, Copy)]
pub enum ToWorkerMsg {
    Playback(PlaybackSettings),
    StopPlayback,
    PlayEvent(NoteEvent),
    StopLiveNote,
}

/// Outcome of sending a message toward the worker.
#[derive(Debug, Clone, Copy, PartialEq, Eq, Structural)]
#[must_use]
pub enum SendResult {
    Success,
    BufferFull,
    AudioInactive,
}

impl SendResult {
    /// Insist the send worked.
    pub fn unwrap(self)
        requires
            self == SendResult::Success,
    {
    }

    /// Whether the send worked.
    pub fn is_success(self) -> (r: bool)
        ensures
            r == (self == SendResult::Success),
    {
        match self {
            SendResult::Success => true,
            _ => false,
        }
    }
}

/// Shape of the audio output a stream was opened with.
#[derive(Debug, Clone, Copy, PartialEq, Eq, Structural)]
pub struct OutputConfig {
    /// Frames per callback.
    pub buffer_size: u32,
    /// Interleaved channels per frame; at least one.
    pub channel_count: u16,
    /// Output frames per second; at least one.
    pub sample_rate: u32,
}

impl OutputConfig {
    /// Sound configurations.
    pub open spec fn wf(self) -> bool {
        &&& self.channel_count >= 1
        &&& 1 <= self.sample_rate <= 0x7FFF_FFFFu32
    }
}

/// The sending ends toward a running worker.
pub struct ActiveStreamComms {
    /// Commands toward the worker.
    pub send: rtrb::Producer<ToWorkerMsg>,
    /// The worker's latest status.
    pub status: triple_buffer::Output<Option<PlaybackStatus>>,
}

/// The editor-thread facade: edit the song, run the reclaimer, talk to the
/// worker.
pub struct AudioManager {
    /// The song snapshot pair.
    pub song: Writer<Song, ValidOperation>,
    /// Retains one handle per published sample.
    pub gc: Collector,
    /// Present while a stream runs.
    pub stream_comms: Option<ActiveStreamComms>,
}

impl AudioManager {
    /// The manager's invariant.
    pub open spec fn wf(self) -> bool {
        self.song.inv()
    }

    /// Start managing a song: both snapshot buffers begin as that song,
    /// and the collector retains one handle per filled sample slot.
    pub fn new(song: Song) -> (r: AudioManager)
        requires
            song.wf(),
        ensures
            r.wf(),
            !r.song.has_reader(),
            !r.song.write_locked,
            r.stream_comms is None,
            crate::song::song_like(song, r.song.published()),
            crate::song::song_like(song, r.song.write_value()),
            r.gc.samples@ == retained_handles(song.samples@),
    {
        let mut gc = Collector::new();
        let mut i: usize = 0;
        while i < song.samples.len()
            invariant
                i <= song.samples@.len(),
                gc.samples@ == retained_handles(song.samples@.take(i as int)),
            decreases song.samples@.len() - i,
        {
            let ghost pre = song.samples@.take(i as int);
            let ghost nxt = song.samples@.take(i + 1);
            match &song.samples[i] {
                Some(pair) => {
                    let s = pair.1.clone();
                    gc.add_sample(s);
                },
                None => {},
            }
            proof {
                assert(nxt.drop_last() =~= pre);
                assert(nxt.last() == song.samples@[i as int]);
                assert(retained_handles(nxt) == (match nxt.last() {
                    Some(p) => retained_handles(pre).push(p.1),
                    None => retained_handles(pre),
                }));
            }
            i += 1;
        }
        proof {
            assert(song.samples@.take(song.samples@.len() as int) =~= song.samples@);
        }
        let writer = Writer::new(song);
        AudioManager { song: writer, gc, stream_comms: None }
    }

    /// The value the editor would write next; possibly newer than what the
    /// worker sees.
    pub fn get_song(&self) -> (r: &Song)
        ensures
            *r == self.song.write_value(),
    {
        self.song.read()
    }

    /// Begin an edit, without blocking. `None` while the worker still reads
    /// the buffer the editor needs.
    pub fn try_edit_song(&mut self) -> (r: Option<SongEdit>)
        requires
            old(self).wf(),
        ensures
            final(self).wf(),
            !old(self).song.can_write() ==> r is None && final(self).song == old(self).song,
            old(self).song.can_write() ==> (r is Some && final(self).song.write_locked && final(self).song.published() == old(self).song.published()),
            final(self).stream_comms == old(self).stream_comms,
    {
        match self.song.try_lock() {
            Some(guard) => Some(SongEdit { guard }),
            None => None,
        }
    }

    /// Drop retained sample handles that nothing else holds any more. Never
    /// called from the audio thread.
    pub fn collect_garbage(&mut self)
        requires
            old(self).wf(),
        ensures
            final(self).wf(),
            final(self).gc.samples@.len() <= old(self).gc.samples@.len(),
            final(self).song == old(self).song,
            final(self).stream_comms == old(self).stream_comms,
    {
        self.gc.collect();
    }

    /// Send one message toward the worker: `AudioInactive` without a
    /// stream, `BufferFull` when the command ring is out of room.
    pub fn try_msg_worker(&mut self, msg: ToWorkerMsg) -> (r: SendResult)
        requires
            old(self).wf(),
        ensures
            final(self).wf(),
            final(self).song == old(self).song,
            old(self).stream_comms is None ==> r == SendResult::AudioInactive,
            old(self).stream_comms is Some ==> (r == SendResult::Success || r
                == SendResult::BufferFull),
    {
        match &mut self.stream_comms {
            Some(stream) => {
                if crate::live_audio::command_push(&mut stream.send, msg) {
                    SendResult::Success
                } else {
                    SendResult::BufferFull
                }
            },
            None => SendResult::AudioInactive,
        }
    }

    /// The last playback status the worker published, if a stream runs.
    pub fn playback_status(&mut self) -> (r: Option<Option<PlaybackStatus>>)
        requires
            old(self).wf(),
        ensures
            final(self).wf(),
            final(self).song == old(self).song,
            (r is Some) == (old(self).stream_comms is Some),
    {
        match &mut self.stream_comms {
            Some(stream) => Some(status_take(&mut stream.status)),
            None => None,
        }
    }

    /// Open the worker side: build the command ring and the status buffer,
    /// mint the snapshot reader, and hand everything the audio callback
    /// needs back as one value. `None` while a stream is already open or a
    /// reader exists.
    pub fn install_output(&mut self, config: OutputConfig, command_capacity: usize) -> (r:
        Option<LiveAudio>)
        requires
            old(self).wf(),
            config.wf(),
        ensures
            final(self).wf(),
            (old(self).stream_comms is Some || old(self).song.has_reader()) ==> r is None,
            r is Some ==> final(self).stream_comms is Some && final(self).song.has_reader(),
            r matches Some(w) ==> (w.wf() && w.playback_state is None && w.live_note is None
                && w.config == config),
            final(self).song.published() == old(self).song.published(),
            final(self).song.write_value() == old(self).song.write_value(),
            final(self).song.write_locked == old(self).song.write_locked,
    {
        match &self.stream_comms {
            Some(_) => {
                return None;
            },
            None => {},
        }
        let reader = match self.song.build_reader() {
            Some(reader) => reader,
            None => {
                return None;
            },
        };
        let (send, recv) = command_ring_new(command_capacity);
        let (status_in, status_out) = status_channel_new();
        self.stream_comms = Some(ActiveStreamComms { send, status: status_out });
        Some(LiveAudio::new(reader, recv, status_in, config))
    }

    /// Tear the stream down: the worker object comes back here so its
    /// reader token can be returned to the writer.
    pub fn close_stream(&mut self, worker: LiveAudio)
        requires
            old(self).wf(),
            old(self).song.has_reader(),
            !old(self).song.reading_one(),
            !old(self).song.reading_two(),
        ensures
            final(self).wf(),
            !final(self).song.has_reader(),
            final(self).stream_comms is None,
            final(self).song.published() == old(self).song.published(),
            final(self).song.write_value() == old(self).song.write_value(),
    {
        let reader = worker.into_reader();
        reader.release(&mut self.song);
        self.stream_comms = None;
    }
}

/// An open edit of the song. Operations are validated and applied as they
/// come; `finish` publishes them all at once.
pub struct SongEdit {
    /// The write capability over the manager's snapshot pair.
    pub guard: WriteGuard,
}

impl AudioManager {
    /// Shut the editor side down: drop every sample slot, publish, then
    /// collect; whatever stays retained afterwards is leaked. When the
    /// write lock is unavailable, only the collection runs.
    pub fn shutdown(&mut self) -> (leaked: usize)
        requires
            old(self).wf(),
        ensures
            final(self).wf(),
            leaked == final(self).gc.samples@.len(),
            old(self).song.can_write() ==> forall|i: int|
                0 <= i < crate::song::MAX_SAMPLES_INSTR
                    ==> #[trigger] final(self).song.published().samples@[i] is None,
    {
        match self.song.try_lock() {
            Some(mut guard) => {
                let ghost with_reader = self.song.has_reader();
                let mut slot: usize = 0;
                while slot < crate::song::MAX_SAMPLES_INSTR
                    invariant
                        slot <= crate::song::MAX_SAMPLES_INSTR,
                        self.song.inv(),
                        self.song.write_locked,
                        self.song.has_reader() == with_reader,
                        !with_reader ==> self.song.pending().len() == 0,
                        with_reader ==> self.song.pending().len() >= slot,
                        forall|j: int|
                            0 <= j < slot ==> #[trigger] self.song.write_value().samples@[j]
                                is None,
                        !with_reader ==> forall|j: int|
                            0 <= j < slot ==> #[trigger] self.song.published().samples@[j]
                                is None,
                    decreases crate::song::MAX_SAMPLES_INSTR - slot,
                {
                    guard.apply_op(&mut self.song, ValidOperation::RemoveSample(slot as u8));
                    slot += 1;
                }
                guard.swap(&mut self.song);
            },
            None => {},
        }
        self.gc.collect();
        self.gc.retained_count()
    }
}

/// What the audio worker can ever observe is a whole snapshot: the song
/// the editor started from with some prefix of the recorded edits absorbed,
/// never a state in between two edits.
pub proof fn lemma_worker_snapshot_is_prefix(m: AudioManager)
    requires
        m.wf(),
    ensures
        0 <= m.song.published_count() <= m.song.hist_ops@.len(),
        crate::left_right::absorb_seq_rel(
            m.song.hist_init@,
            m.song.hist_ops@.take(m.song.published_count()),
            m.song.published(),
        ),
{
    crate::left_right::lemma_snapshot_is_prefix_replay(m.song);
}

impl SongEdit {
    /// Validate and apply one operation; an invalid one comes back
    /// unchanged and changes nothing.
    pub fn apply_operation(&mut self, mgr: &mut AudioManager, op: SongOperation) -> (r: Result<
        (),
        SongOperation,
    >)
        requires
            old(mgr).wf(),
            old(mgr).song.write_locked,
        ensures
            final(mgr).wf(),
            final(mgr).song.write_locked,
            op_valid(old(mgr).song.write_value(), op) ==> r is Ok && song_op_applied(
                old(mgr).song.write_value(),
                final(mgr).song.write_value(),
                crate::song::as_valid(op),
            ),
            !op_valid(old(mgr).song.write_value(), op) ==> r == Err::<(), SongOperation>(op)
                && final(mgr).song.write_value() == old(mgr).song.write_value(),
            final(mgr).song.has_reader() == old(mgr).song.has_reader(),
            final(mgr).song.reading_one() == old(mgr).song.reading_one(),
            final(mgr).song.reading_two() == old(mgr).song.reading_two(),
            old(mgr).song.has_reader() || old(mgr).song.pending().len() > 0 ==> final(mgr).song.published() == old(mgr).song.published(),
    {
        let valid_operation = {
            let song_ref = self.guard.read(&mgr.song);
            match ValidOperation::new(op, &mut mgr.gc, song_ref) {
                Ok(v) => v,
                Err(e) => {
                    return Err(e);
                },
            }
        };
        self.guard.apply_op(&mut mgr.song, valid_operation);
        Ok(())
    }

    /// Publish everything applied under this edit.
    pub fn finish(self, mgr: &mut AudioManager)
        requires
            old(mgr).wf(),
            old(mgr).song.write_locked,
        ensures
            final(mgr).wf(),
            !final(mgr).song.write_locked,
            old(mgr).song.pending().len() == 0 ==> final(mgr).song.published() == old(mgr).song.published(),
            old(mgr).song.pending().len() > 0 ==> final(mgr).song.published() == old(mgr).song.write_value(),
    {
        self.guard.swap(&mut mgr.song);
    }
}

} // verus!
