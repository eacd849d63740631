//! The song data model: positions, patterns, the orderlist and the
//! validated operations.

use tracker_engine::left_right::Writer;
use tracker_engine::note_event::{Note, NoteCommand, NoteEvent, Pan, VolumeEffect};
use tracker_engine::pattern::{InPatternPosition, Pattern, PatternOperation};
use tracker_engine::sample::{Collector, Sample, SampleMetaData};
use tracker_engine::song::{PatternOrder, Song, SongOperation, ValidOperation};

fn event(note: u8, instr: u8) -> NoteEvent {
    NoteEvent {
        note: Note::new(note).unwrap(),
        sample_instr: instr,
        vol: VolumeEffect::Unset,
        command: NoteCommand::Unset,
    }
}

#[test]
fn position_ord() {
    let one_zero = InPatternPosition { row: 1, channel: 0 };
    let zero_one = InPatternPosition { row: 0, channel: 1 };
    assert!(one_zero > zero_one);
}

#[test]
fn pattern_position_ord() {
    let one_zero = InPatternPosition { row: 1, channel: 0 };
    let zero_one = InPatternPosition { row: 0, channel: 1 };
    assert!(one_zero > zero_one);
}

#[test]
fn pattern_set_get_remove() {
    let mut p = Pattern::new(64);
    let at = InPatternPosition { row: 3, channel: 7 };
    assert!(p.get_event(at).is_none());
    p.set_event(at, event(60, 1));
    assert_eq!(p.get_event(at).unwrap().sample_instr, 1);
    p.set_event(at, event(61, 2));
    assert_eq!(p.get_event(at).unwrap().sample_instr, 2);
    assert_eq!(p.event_count(), 1);
    p.remove_event(at);
    assert!(p.get_event(at).is_none());
    assert!(p.is_empty());
}

#[test]
fn pattern_row_slice() {
    let mut p = Pattern::new(64);
    p.set_event(InPatternPosition { row: 1, channel: 9 }, event(62, 3));
    p.set_event(InPatternPosition { row: 0, channel: 5 }, event(60, 1));
    p.set_event(InPatternPosition { row: 1, channel: 2 }, event(61, 2));
    p.set_event(InPatternPosition { row: 2, channel: 0 }, event(63, 4));

    let (start, end) = p.row_range(1);
    assert_eq!(end - start, 2);
    let first = p.event_at(start);
    let second = p.event_at(start + 1);
    // every position names row one, channels strictly increasing
    assert_eq!(first.0.row, 1);
    assert_eq!(second.0.row, 1);
    assert!(first.0.channel < second.0.channel);
    assert_eq!(first.1.sample_instr, 2);
    assert_eq!(second.1.sample_instr, 3);

    let (s3, e3) = p.row_range(3);
    assert_eq!(s3, e3);
}

#[test]
fn pattern_set_length_truncates() {
    let mut p = Pattern::new(64);
    p.set_event(InPatternPosition { row: 10, channel: 0 }, event(60, 1));
    p.set_event(InPatternPosition { row: 40, channel: 0 }, event(61, 2));
    p.set_length(20);
    assert_eq!(p.row_count(), 20);
    assert!(p.get_event(InPatternPosition { row: 10, channel: 0 }).is_some());
    assert!(p.get_event(InPatternPosition { row: 40, channel: 0 }).is_none());
}

#[test]
fn next_pattern_skips() {
    let mut song = Song::default();
    song.pattern_order[0] = PatternOrder::SkipOrder;
    song.pattern_order[1] = PatternOrder::SkipOrder;
    song.pattern_order[2] = PatternOrder::Number(7);

    let mut order: u16 = 0;
    assert_eq!(song.next_pattern(&mut order), Some(7));
    assert_eq!(order, 2);

    let mut past: u16 = 3;
    assert_eq!(song.next_pattern(&mut past), None);
    assert_eq!(past, 3);
}

#[test]
fn validation_rejects_out_of_range() {
    let song = Song::default();
    let mut gc = Collector::new();

    let bad_volume = SongOperation::SetVolume(64, 10);
    assert!(ValidOperation::new(bad_volume, &mut gc, &song).is_err());

    let bad_pan = SongOperation::SetPan(200, Pan::Surround);
    assert!(ValidOperation::new(bad_pan, &mut gc, &song).is_err());

    let bad_slot = SongOperation::RemoveSample(236);
    assert!(ValidOperation::new(bad_slot, &mut gc, &song).is_err());

    let bad_pattern = SongOperation::PatternOperation(
        240,
        PatternOperation::RemoveEvent { position: InPatternPosition { row: 0, channel: 0 } },
    );
    assert!(ValidOperation::new(bad_pattern, &mut gc, &song).is_err());

    let bad_row = SongOperation::PatternOperation(
        0,
        PatternOperation::SetEvent {
            position: InPatternPosition { row: 64, channel: 0 },
            event: event(60, 0),
        },
    );
    assert!(ValidOperation::new(bad_row, &mut gc, &song).is_err());

    let bad_length = SongOperation::PatternOperation(
        0,
        PatternOperation::SetLength { new_len: 201 },
    );
    assert!(ValidOperation::new(bad_length, &mut gc, &song).is_err());

    let zero_length = SongOperation::PatternOperation(
        0,
        PatternOperation::SetLength { new_len: 0 },
    );
    assert!(ValidOperation::new(zero_length, &mut gc, &song).is_err());

    let bad_speed = SongOperation::SetInitialSpeed(0);
    assert!(ValidOperation::new(bad_speed, &mut gc, &song).is_err());

    let ok_tempo = SongOperation::SetInitialTempo(125);
    assert!(ValidOperation::new(ok_tempo, &mut gc, &song).is_ok());

    assert_eq!(gc.retained_count(), 0);
}

#[test]
fn high_sample_rates_are_accepted() {
    // a sample rate only has to be above zero; nothing caps it
    let song = Song::default();
    let mut gc = Collector::new();
    let sample = Sample::new_mono(vec![1, 2, 3]).unwrap();
    let meta = SampleMetaData { sample_rate: 300_000, ..SampleMetaData::default() };
    let op = SongOperation::SetSample(4, meta, sample);
    assert!(ValidOperation::new(op, &mut gc, &song).is_ok());

    let bad = SampleMetaData { sample_rate: 0, ..SampleMetaData::default() };
    let sample = Sample::new_mono(vec![1, 2, 3]).unwrap();
    assert!(ValidOperation::new(SongOperation::SetSample(4, bad, sample), &mut gc, &song).is_err());
}

#[test]
fn validation_retains_published_sample() {
    let song = Song::default();
    let mut gc = Collector::new();
    let sample = Sample::new_mono(vec![1, 2, 3]).unwrap();
    let op = SongOperation::SetSample(4, SampleMetaData::default(), sample);
    assert!(ValidOperation::new(op, &mut gc, &song).is_ok());
    assert_eq!(gc.retained_count(), 1);
}

#[test]
fn absorb_applies_operations() {
    let mut song = Song::default();
    let mut gc = Collector::new();
    let base = Song::default();

    let op = ValidOperation::new(SongOperation::SetVolume(3, 10), &mut gc, &base).unwrap();
    song.absorb_operation(op);
    assert_eq!(song.volume[3], 10);

    let op = ValidOperation::new(SongOperation::SetGlobalVol(99), &mut gc, &base).unwrap();
    song.absorb_operation(op);
    assert_eq!(song.global_volume, 99);

    let op = ValidOperation::new(
        SongOperation::SetOrder(0, PatternOrder::Number(3)),
        &mut gc,
        &base,
    )
    .unwrap();
    song.absorb_operation(op);
    assert_eq!(song.pattern_order[0], PatternOrder::Number(3));
}

#[test]
fn replay_determinism() {
    // the same two edits, replayed into two snapshot pairs seeded from the
    // same song, leave all four buffers agreeing
    let mut w1: Writer<Song, ValidOperation> = Writer::new(Song::default());
    let mut w2: Writer<Song, ValidOperation> = Writer::new(Song::default());
    let base = Song::default();
    let mut gc = Collector::new();

    for w in [&mut w1, &mut w2] {
        let mut lock = w.try_lock().unwrap();
        let op1 = ValidOperation::new(SongOperation::SetVolume(3, 10), &mut gc, &base).unwrap();
        let op2 = ValidOperation::new(SongOperation::SetGlobalVol(99), &mut gc, &base).unwrap();
        lock.apply_op(w, op1);
        lock.apply_op(w, op2);
        lock.swap(w);
        let lock = w.try_lock().unwrap();
        lock.swap(w);
    }

    for w in [&w1, &w2] {
        let song = w.read();
        assert_eq!(song.volume[3], 10);
        assert_eq!(song.global_volume, 99);
        assert_eq!(song.initial_speed, 6);
    }
}

#[test]
fn snapshot_sees_whole_edit_or_nothing() {
    // a reader taking snapshots around an edit sees the old state during
    // the edit and the full new state after it, never half of it
    let mut writer: Writer<Song, ValidOperation> = Writer::new(Song::default());
    let mut reader = writer.build_reader().unwrap();
    let base = Song::default();
    let mut gc = Collector::new();

    let mut lock = writer.try_lock().unwrap();
    let op1 = ValidOperation::new(SongOperation::SetVolume(0, 1), &mut gc, &base).unwrap();
    let op2 = ValidOperation::new(SongOperation::SetVolume(1, 2), &mut gc, &base).unwrap();
    lock.apply_op(&mut writer, op1);

    let mid = reader.lock(&mut writer);
    assert_eq!(mid.value.volume[0], 64);
    assert_eq!(mid.value.volume[1], 64);
    mid.release(&mut writer);

    lock.apply_op(&mut writer, op2);
    lock.swap(&mut writer);

    let after = reader.lock(&mut writer);
    assert_eq!(after.value.volume[0], 1);
    assert_eq!(after.value.volume[1], 2);
    after.release(&mut writer);
}
