//! Decoders, voices, playback and the manager facade, end to end.

use tracker_engine::file_format::err::LoadErr;
use tracker_engine::file_format::header::ImpulseHeader;
use tracker_engine::file_format::instrument::ImpulseInstrument;
use tracker_engine::file_format::pattern::load_pattern;
use tracker_engine::file_format::sample::{ImpulseSampleHeader, SampleFormatFlags};
use tracker_engine::live_audio::LiveAudio;
use tracker_engine::manager::{AudioManager, OutputConfig, SendResult, ToWorkerMsg};
use tracker_engine::note_event::{Note, NoteCommand, NoteEvent, Pan, VolumeEffect};
use tracker_engine::pattern::{InPatternPosition, PatternOperation};
use tracker_engine::playback::{frames_per_tick, PlaybackSettings, PlaybackState};
use tracker_engine::sample::{Sample, SampleMetaData};
use tracker_engine::song::{PatternOrder, Song, SongOperation};
use tracker_engine::voice::SamplePlayer;

fn event(note: u8, instr: u8) -> NoteEvent {
    NoteEvent {
        note: Note::new(note).unwrap(),
        sample_instr: instr,
        vol: VolumeEffect::Unset,
        command: NoteCommand::Unset,
    }
}

#[test]
fn note_basics() {
    assert!(Note::new(199).is_ok());
    assert_eq!(Note::new(200), Err(200));
    let n = Note::new(61).unwrap();
    assert_eq!(n.get_octave(), 5);
    assert_eq!(n.get_note_name(), "C#");
    assert_eq!(n.get(), 61);
}

#[test]
fn volume_effect_decoding() {
    assert_eq!(VolumeEffect::try_from(0), Ok(VolumeEffect::Volume(0)));
    assert_eq!(VolumeEffect::try_from(64), Ok(VolumeEffect::Volume(64)));
    assert_eq!(VolumeEffect::try_from(65), Ok(VolumeEffect::FineVolSlideUp(0)));
    assert_eq!(VolumeEffect::try_from(127), Err(127));
    assert_eq!(VolumeEffect::try_from(128), Ok(VolumeEffect::Panning(0)));
    assert_eq!(VolumeEffect::try_from(212), Ok(VolumeEffect::VibratoWithSpeed(9)));
    assert_eq!(VolumeEffect::try_from(213), Err(213));
}

#[test]
fn note_command_decoding() {
    assert!(matches!(NoteCommand::try_from((0, 9)), Ok(NoteCommand::Unset)));
    assert!(matches!(NoteCommand::try_from((1, 9)), Ok(NoteCommand::SetTempo(9))));
    assert!(matches!(NoteCommand::try_from((26, 2)), Ok(NoteCommand::MIDIMacros(2))));
    assert!(NoteCommand::try_from((27, 0)).is_err());
}

#[test]
fn pan_and_order_decoding() {
    assert_eq!(Pan::try_from(100), Ok(Pan::Surround));
    assert_eq!(Pan::try_from(128), Ok(Pan::Disabled));
    assert_eq!(Pan::try_from(64), Ok(Pan::Value(64)));
    assert_eq!(Pan::try_from(65), Err(65));
    assert_eq!(PatternOrder::try_from(255), Ok(PatternOrder::EndOfSong));
    assert_eq!(PatternOrder::try_from(254), Ok(PatternOrder::SkipOrder));
    assert_eq!(PatternOrder::try_from(199), Ok(PatternOrder::Number(199)));
    assert_eq!(PatternOrder::try_from(200), Err(200));
}

#[test]
fn sample_padding() {
    let s = Sample::new_mono(vec![7, 8, 9]).unwrap();
    assert!(s.is_mono());
    assert_eq!(s.len_with_pad(), 3 + 8);
    assert_eq!(s.index(0), (0, 0));
    assert_eq!(s.index(4), (7, 7));
    assert_eq!(s.index(6), (9, 9));
    assert_eq!(s.index(7), (0, 0));

    let st = Sample::new_stereo(vec![1, 2, 3, 4]).unwrap();
    assert!(!st.is_mono());
    assert_eq!(st.len_with_pad(), 2 + 8);
    assert_eq!(st.index(4), (1, 2));
    assert_eq!(st.index(5), (3, 4));
}

#[test]
fn voice_exhaustion_and_monotonic_phase() {
    // a sample of 100 payload frames played one octave above its reference
    // at the recording rate steps by exactly two frames per output frame
    let data: Vec<u32> = (0..100).collect();
    let sample = Sample::new_mono(data).unwrap();
    let meta = SampleMetaData::default();
    let note = Note::new(72).unwrap();
    let mut player = SamplePlayer::new(sample, meta, 44100, note);

    let mut frames = 0u32;
    let mut last_index = 0usize;
    while let Some(tap) = player.next() {
        assert!(tap.index >= last_index);
        last_index = tap.index;
        frames += 1;
        assert!(frames < 1000);
    }
    // ceil(100 / 2) frames before exhaustion
    assert_eq!(frames, 50);
    assert!(player.check_position());
    assert!(player.next().is_none());
}

#[test]
fn voice_fractional_step() {
    // 3 payload frames at half speed: one octave below the reference
    let sample = Sample::new_mono(vec![5, 6, 7]).unwrap();
    let meta = SampleMetaData::default();
    let note = Note::new(48).unwrap();
    let mut player = SamplePlayer::new(sample, meta, 44100, note);
    let mut frames = 0u32;
    while player.next().is_some() {
        frames += 1;
        assert!(frames < 100);
    }
    // ceil(3 / 0.5) frames before exhaustion
    assert_eq!(frames, 6);
}

#[test]
fn tick_formula() {
    assert_eq!(frames_per_tick(48000, 125), 768);
    assert_eq!(frames_per_tick(44100, 125), 705);
    assert_eq!(frames_per_tick(48000, 1), 96000);
}

#[test]
fn playback_advances_rows_and_voices() {
    let mut song = Song::default();
    let sample = Sample::new_mono((0..2000).collect()).unwrap();
    song.samples[0] = Some((SampleMetaData::default(), sample));
    song.pattern_order[0] = PatternOrder::Number(0);
    song.patterns[0].set_event(InPatternPosition { row: 0, channel: 0 }, event(60, 0));
    song.patterns[0].set_event(InPatternPosition { row: 1, channel: 1 }, event(61, 0));

    let settings = PlaybackSettings::Order { idx: 0, should_loop: false };
    let mut state = PlaybackState::new(&song, 48000, settings).unwrap();
    assert!(!state.is_done());
    assert!(state.voices[0].is_some());
    assert!(state.voices[1].is_none());

    let mut steps = 0u32;
    while state.position.row == 0 {
        state.step(&song);
        steps += 1;
        assert!(steps < 100_000);
    }
    // the first row lasts its six ticks of frames
    assert!(steps > 6 * 768);
    assert!(state.voices[1].is_some());
}

#[test]
fn playback_single_pattern_ends() {
    let mut song = Song::default();
    song.patterns[0].set_length(32);
    let settings = PlaybackSettings::Pattern { idx: 0, should_loop: false };
    let mut state = PlaybackState::new(&song, 48000, settings).unwrap();
    let mut steps = 0u64;
    while !state.is_done() {
        state.step(&song);
        steps += 1;
        assert!(steps < 100_000_000);
    }
}

#[test]
fn playback_empty_orderlist_is_silent() {
    let song = Song::default();
    let settings = PlaybackSettings::Order { idx: 0, should_loop: false };
    assert!(PlaybackState::new(&song, 48000, settings).is_none());
}

fn output_config() -> OutputConfig {
    OutputConfig { buffer_size: 128, channel_count: 2, sample_rate: 48000 }
}

#[test]
fn manager_roundtrip_with_worker() {
    let mut mgr = AudioManager::new(Song::default());
    assert!(matches!(mgr.try_msg_worker(ToWorkerMsg::StopPlayback), SendResult::AudioInactive));

    let sample = Sample::new_mono((0..50000).collect()).unwrap();
    let mut edit = mgr.try_edit_song().unwrap();
    edit.apply_operation(
        &mut mgr,
        SongOperation::SetSample(0, SampleMetaData::default(), sample),
    )
    .unwrap();
    edit.apply_operation(&mut mgr, SongOperation::SetOrder(0, PatternOrder::Number(0)))
        .unwrap();
    edit.apply_operation(
        &mut mgr,
        SongOperation::PatternOperation(
            0,
            PatternOperation::SetEvent {
                position: InPatternPosition { row: 0, channel: 0 },
                event: event(60, 0),
            },
        ),
    )
    .unwrap();
    edit.finish(&mut mgr);

    let mut live: LiveAudio = mgr.install_output(output_config(), 8).unwrap();
    assert!(mgr.install_output(output_config(), 8).is_none());

    assert!(mgr.try_msg_worker(ToWorkerMsg::Playback(PlaybackSettings::Order {
        idx: 0,
        should_loop: false,
    }))
    .is_success());

    // one callback's control part: snapshot, drain, report status
    let snapshot = live.song_reader.lock(&mut mgr.song);
    let work = live.fill_internal_buffer(&snapshot.value, 8);
    assert!(work);
    let (sample_handle, tap) = live.playback_voice_tap(0).unwrap();
    assert_eq!(tap.index, 4);
    assert_eq!(sample_handle.index(tap.index), (0, 0));
    live.playback_step(&snapshot.value);
    live.send_state();
    snapshot.release(&mut mgr.song);

    let status = mgr.playback_status().unwrap();
    assert_eq!(status.unwrap().position.row, 0);

    mgr.close_stream(live);
    assert!(matches!(mgr.try_msg_worker(ToWorkerMsg::StopPlayback), SendResult::AudioInactive));
}

#[test]
fn editor_blocked_while_snapshot_read() {
    let mut mgr = AudioManager::new(Song::default());
    let mut live = mgr.install_output(output_config(), 4).unwrap();

    // the worker reads a snapshot while the editor publishes once: the
    // writer's next target is then the buffer still being read
    let snapshot = live.song_reader.lock(&mut mgr.song);
    let mut edit = mgr.try_edit_song().unwrap();
    edit.apply_operation(&mut mgr, SongOperation::SetGlobalVol(5)).unwrap();
    edit.finish(&mut mgr);

    assert!(mgr.try_edit_song().is_none());
    snapshot.release(&mut mgr.song);
    let edit = mgr.try_edit_song().unwrap();
    edit.finish(&mut mgr);
    mgr.close_stream(live);
}

#[test]
fn voice_keeps_replaced_sample() {
    // a playing voice holds its sample handle; replacing the slot affects
    // only voices started afterwards
    let mut mgr = AudioManager::new(Song::default());
    let old_sample = Sample::new_mono(vec![111; 1000]).unwrap();
    let mut edit = mgr.try_edit_song().unwrap();
    edit.apply_operation(
        &mut mgr,
        SongOperation::SetSample(0, SampleMetaData::default(), old_sample),
    )
    .unwrap();
    edit.finish(&mut mgr);

    let mut live = mgr.install_output(output_config(), 4).unwrap();
    assert!(mgr.try_msg_worker(ToWorkerMsg::PlayEvent(event(60, 0))).is_success());

    let snapshot = live.song_reader.lock(&mut mgr.song);
    assert!(live.fill_internal_buffer(&snapshot.value, 4));
    snapshot.release(&mut mgr.song);

    // the editor swaps the slot while the voice plays
    let new_sample = Sample::new_mono(vec![222; 1000]).unwrap();
    let mut edit = mgr.try_edit_song().unwrap();
    edit.apply_operation(
        &mut mgr,
        SongOperation::SetSample(0, SampleMetaData::default(), new_sample),
    )
    .unwrap();
    edit.finish(&mut mgr);

    let (handle, tap) = live.next_live_tap().unwrap();
    assert_eq!(handle.index(tap.index), (111, 111));

    // a fresh live note started now reads the new buffer
    assert!(mgr.try_msg_worker(ToWorkerMsg::PlayEvent(event(60, 0))).is_success());
    let snapshot = live.song_reader.lock(&mut mgr.song);
    assert!(live.fill_internal_buffer(&snapshot.value, 4));
    snapshot.release(&mut mgr.song);
    let (handle, tap) = live.next_live_tap().unwrap();
    assert_eq!(handle.index(tap.index), (222, 222));
    mgr.close_stream(live);
}

#[test]
fn command_ring_reports_full() {
    let mut mgr = AudioManager::new(Song::default());
    let live = mgr.install_output(output_config(), 1).unwrap();
    assert!(mgr.try_msg_worker(ToWorkerMsg::StopPlayback).is_success());
    assert!(matches!(mgr.try_msg_worker(ToWorkerMsg::StopPlayback), SendResult::BufferFull));
    mgr.close_stream(live);
}

#[test]
fn live_note_replaces_itself() {
    let mut mgr = AudioManager::new(Song::default());
    let sample = Sample::new_mono((0..500).collect()).unwrap();
    let mut edit = mgr.try_edit_song().unwrap();
    edit.apply_operation(
        &mut mgr,
        SongOperation::SetSample(0, SampleMetaData::default(), sample),
    )
    .unwrap();
    edit.finish(&mut mgr);
    let mut live = mgr.install_output(output_config(), 4).unwrap();

    assert!(mgr.try_msg_worker(ToWorkerMsg::PlayEvent(event(60, 0))).is_success());
    let snapshot = live.song_reader.lock(&mut mgr.song);
    assert!(live.fill_internal_buffer(&snapshot.value, 4));
    snapshot.release(&mut mgr.song);
    // let the first voice advance a little
    for _ in 0..10 {
        assert!(live.next_live_tap().is_some());
    }

    // the second event overwrites the live slot: the tail stops at once
    assert!(mgr.try_msg_worker(ToWorkerMsg::PlayEvent(event(60, 0))).is_success());
    let snapshot = live.song_reader.lock(&mut mgr.song);
    assert!(live.fill_internal_buffer(&snapshot.value, 4));
    snapshot.release(&mut mgr.song);
    let (_, tap) = live.next_live_tap().unwrap();
    assert_eq!(tap.index, 4);
    mgr.close_stream(live);
}

#[test]
fn rate_change_keeps_phase() {
    let sample = Sample::new_mono((0..100).collect()).unwrap();
    let mut player = SamplePlayer::new(sample, SampleMetaData::default(), 44100, Note::new(60).unwrap());
    for _ in 0..5 {
        player.next().unwrap();
    }
    let before = player.next().unwrap();
    player.set_out_samplerate(22050);
    let after = player.next().unwrap();
    // the position carries straight on; only the step halves
    assert_eq!(after.index, before.index + 1);
    let half = player.next().unwrap();
    assert_eq!(half.index, after.index);
    assert!(half.frac > 0);
    let whole = player.next().unwrap();
    assert_eq!(whole.index, after.index + 1);
}

#[test]
fn payload_free_sample_still_cuts_voices() {
    // a filled slot always replaces what played there: with no payload to
    // play, the old tail still ceases at once
    let mut mgr = AudioManager::new(Song::default());
    let audible = Sample::new_mono((0..500).collect()).unwrap();
    let silent = Sample::new_mono(Vec::new()).unwrap();
    let mut edit = mgr.try_edit_song().unwrap();
    edit.apply_operation(
        &mut mgr,
        SongOperation::SetSample(0, SampleMetaData::default(), audible),
    )
    .unwrap();
    edit.apply_operation(
        &mut mgr,
        SongOperation::SetSample(1, SampleMetaData::default(), silent),
    )
    .unwrap();
    edit.finish(&mut mgr);
    let mut live = mgr.install_output(output_config(), 4).unwrap();

    assert!(mgr.try_msg_worker(ToWorkerMsg::PlayEvent(event(60, 0))).is_success());
    let snapshot = live.song_reader.lock(&mut mgr.song);
    assert!(live.fill_internal_buffer(&snapshot.value, 4));
    snapshot.release(&mut mgr.song);
    assert!(live.next_live_tap().is_some());

    // the payload-free sample replaces the playing voice with nothing
    assert!(mgr.try_msg_worker(ToWorkerMsg::PlayEvent(event(60, 1))).is_success());
    let snapshot = live.song_reader.lock(&mut mgr.song);
    live.fill_internal_buffer(&snapshot.value, 4);
    snapshot.release(&mut mgr.song);
    assert!(live.next_live_tap().is_none());
    mgr.close_stream(live);
}

#[test]
fn reclaimer_drops_removed_sample() {
    let mut mgr = AudioManager::new(Song::default());
    let sample = Sample::new_mono(vec![1, 2, 3, 4]).unwrap();
    let mut edit = mgr.try_edit_song().unwrap();
    edit.apply_operation(
        &mut mgr,
        SongOperation::SetSample(0, SampleMetaData::default(), sample),
    )
    .unwrap();
    edit.finish(&mut mgr);
    assert_eq!(mgr.gc.retained_count(), 1);

    // while both buffers hold the slot, collection keeps the handle
    mgr.collect_garbage();
    assert_eq!(mgr.gc.retained_count(), 1);

    let mut edit = mgr.try_edit_song().unwrap();
    edit.apply_operation(&mut mgr, SongOperation::RemoveSample(0)).unwrap();
    edit.finish(&mut mgr);

    // nothing references the sample any more: the retainer is the last
    // holder and drops it, off the audio thread
    mgr.collect_garbage();
    assert_eq!(mgr.gc.retained_count(), 0);
}

#[test]
fn shutdown_leaks_nothing() {
    let mut mgr = AudioManager::new(Song::default());
    let sample = Sample::new_mono(vec![9; 64]).unwrap();
    let mut edit = mgr.try_edit_song().unwrap();
    edit.apply_operation(
        &mut mgr,
        SongOperation::SetSample(3, SampleMetaData::default(), sample),
    )
    .unwrap();
    edit.finish(&mut mgr);

    let live = mgr.install_output(output_config(), 4).unwrap();
    mgr.close_stream(live);
    assert_eq!(mgr.shutdown(), 0);
}

#[test]
fn header_load_roundtrip() {
    let mut buf = vec![0u8; 192 + 2 + 8];
    buf[0] = b'I';
    buf[1] = b'M';
    buf[2] = b'P';
    buf[3] = b'M';
    buf[4] = b'h';
    buf[5] = b'i';
    buf[0x1E] = 0x34;
    buf[0x1F] = 0x12;
    buf[0x20] = 2; // two orderlist entries
    buf[0x26] = 2; // two pattern offsets
    buf[0x30] = 90; // global volume
    buf[0x31] = 200; // out of range: repaired to 64
    buf[0x32] = 6;
    buf[0x33] = 125;
    for i in 0..64 {
        buf[0x40 + i] = 32;
        buf[0x80 + i] = 64;
    }
    buf[192] = 3; // order: pattern three
    buf[193] = 254; // order: skip
    buf[194] = 0; // pattern offsets: 0 means empty
    buf[198] = 200; // a real offset past the fixed header

    let mut defects = Vec::new();
    let h = ImpulseHeader::load(&buf, &mut defects).unwrap();
    assert_eq!(h.song_name, b"hi".to_vec());
    assert_eq!(h.philight, 0x1234);
    assert_eq!(h.global_volume, 90);
    assert_eq!(h.mix_volume, 64);
    assert_eq!(defects.len(), 1);
    assert_eq!(h.orders.len(), 2);
    assert_eq!(h.orders[0], PatternOrder::Number(3));
    assert_eq!(h.orders[1], PatternOrder::SkipOrder);
    assert_eq!(h.pattern_offsets.len(), 2);
    assert!(h.pattern_offsets[0].is_none());
    assert_eq!(h.pattern_offsets[1].unwrap().0, 200);

    assert!(matches!(
        ImpulseHeader::load(&buf[..100], &mut defects),
        Err(LoadErr::BufferTooShort)
    ));
    let mut bad = buf.clone();
    bad[0] = b'X';
    assert!(matches!(ImpulseHeader::load(&bad, &mut defects), Err(LoadErr::Invalid)));
}

#[test]
fn pattern_load_decodes_events() {
    // one event on row zero, channel one, then 32 row ends
    let mut data = vec![
        0u8, 0, 32, 0, 0, 0, 0, 0, // header: length patched below, 32 rows
        0x82, // channel two's slot (one-based), mask follows
        0b0000_0011, // a note and an instrument follow
        60, 5,
    ];
    data.extend(std::iter::repeat(0).take(32));
    let body_len = (data.len() - 8) as u16;
    data[0] = body_len as u8;
    data[1] = (body_len >> 8) as u8;

    let mut defects = Vec::new();
    let p = load_pattern(&data, &mut defects).unwrap();
    assert_eq!(p.row_count(), 32);
    assert_eq!(p.event_count(), 1);
    let got = p.get_event(InPatternPosition { row: 0, channel: 1 }).unwrap();
    assert_eq!(got.note.get(), 60);
    assert_eq!(got.sample_instr, 5);

    let mut bad_rows = data.clone();
    bad_rows[2] = 201;
    assert!(matches!(load_pattern(&bad_rows, &mut defects), Err(LoadErr::Invalid)));
    assert!(matches!(load_pattern(&data[..4], &mut defects), Err(LoadErr::BufferTooShort)));
}

#[test]
fn sample_header_parse() {
    let mut buf = vec![0u8; 80];
    buf[0] = b'I';
    buf[1] = b'M';
    buf[2] = b'P';
    buf[3] = b'S';
    buf[0x11] = 48; // global volume
    buf[0x12] = 0b0001_0011; // has sample, sixteen bit, loops
    buf[0x13] = 64;
    buf[0x14] = b'k';
    buf[0x30] = 16; // length
    buf[0x3C] = 0x44;
    buf[0x3D] = 0xAC; // 44100
    buf[0x48] = 0x00;
    buf[0x49] = 0x01; // data at 256
    buf[0x4C] = 90; // out of range: repaired to 32

    let mut defects = Vec::new();
    let h = ImpulseSampleHeader::parse(&buf, &mut defects).unwrap();
    assert_eq!(h.sample_name, b"k".to_vec());
    assert_eq!(h.global_volume, 48);
    assert!(h.flags.has_sample());
    assert!(h.flags.is_16bit());
    assert!(!h.flags.is_8bit());
    assert!(h.flags.uses_loop());
    assert!(h.flags.forward_loop());
    assert_eq!(h.length, 16);
    assert_eq!(h.c5_speed, 44100);
    assert_eq!(h.data_ptr.0, 256);
    assert_eq!(h.vibrato_speed, 32);
    assert_eq!(defects.len(), 1);

    let flags = SampleFormatFlags(0b1100_1100);
    assert!(flags.is_steroe());
    assert!(flags.is_compressed());
    assert!(flags.ping_pong_loop());
    assert!(flags.ping_pong_sustain_loop());
    assert!(!flags.forward_sustain_loop());

    let mut bad = buf.clone();
    bad[0x10] = 1;
    assert!(matches!(
        ImpulseSampleHeader::parse(&bad, &mut defects),
        Err(LoadErr::Invalid)
    ));
}

#[test]
fn instrument_parse() {
    let mut buf = vec![0u8; 554];
    buf[0] = b'I';
    buf[1] = b'M';
    buf[2] = b'P';
    buf[3] = b'I';
    buf[0x11] = 2; // note off on new notes
    buf[0x17] = 60; // pitch-pan centre
    buf[0x18] = 128;
    buf[0x19] = 128; // pan disabled
    buf[0x20] = b'o';
    buf[0x21] = b'k';
    buf[0x40] = 12; // first table entry: note 12, sample 3
    buf[0x41] = 3;
    buf[0x130] = 7; // volume envelope flags

    let mut defects = Vec::new();
    let h = ImpulseInstrument::parse(&buf, &mut defects).unwrap();
    assert_eq!(h.name, b"ok".to_vec());
    assert_eq!(h.pitch_pan_center, 60);
    assert_eq!(h.global_volume, 128);
    assert!(h.default_pan.is_none());
    assert_eq!(h.note_sample_table[0], (12, 3));
    assert_eq!(h.note_sample_table[1], (0, 0));
    assert_eq!(h.volume_envelope.flags, 7);
    assert_eq!(h.volume_envelope.nodes.len(), 25);
    assert_eq!(defects.len(), 0);
}

#[test]
fn sample_too_large_is_refused() {
    let data = vec![0u32; 16_000_001];
    assert!(Sample::new_mono(data).is_err());
}
