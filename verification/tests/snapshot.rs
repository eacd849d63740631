//! The double-buffered snapshot, driven through its writer, reader and
//! guards.

use tracker_engine::left_right::{CounterAddOp, Writer};

#[test]
fn single_thread() {
    let mut writer: Writer<i32, CounterAddOp> = Writer::new(0);
    let mut reader = writer.build_reader().unwrap();

    let read_lock = reader.lock(&mut writer);
    assert_eq!(read_lock.value, 0);

    let mut write_lock = writer.try_lock().unwrap();
    write_lock.apply_op(&mut writer, CounterAddOp(1));

    assert_eq!(read_lock.value, 0);

    read_lock.release(&mut writer);

    let read_lock = reader.lock(&mut writer);
    assert_eq!(read_lock.value, 0);

    write_lock.swap(&mut writer);
    // buffers got swapped, but a read mark is still held: no write lock yet
    assert!(writer.try_lock().is_none());
    read_lock.release(&mut writer);

    let read_lock = reader.lock(&mut writer);
    // the read mark was given back and taken anew: the new value shows
    assert_eq!(read_lock.value, 1);
    let write_lock = writer.try_lock().unwrap();
    write_lock.swap(&mut writer);

    read_lock.release(&mut writer);

    let read_lock = reader.lock(&mut writer);
    assert_eq!(read_lock.value, 1);
    read_lock.release(&mut writer);
}

#[test]
fn double_reader() {
    let mut writer: Writer<i32, CounterAddOp> = Writer::new(0);
    let _reader = writer.build_reader().unwrap();
    assert!(writer.build_reader().is_none());
}

#[test]
fn reader_leak() {
    let mut writer: Writer<i32, CounterAddOp> = Writer::new(0);
    let reader = writer.build_reader().unwrap();
    reader.release(&mut writer);
    let reader = writer.build_reader().unwrap();
    std::mem::forget(reader);
    assert!(writer.build_reader().is_none());
}

#[test]
fn reader_rebuild() {
    let mut writer: Writer<i32, CounterAddOp> = Writer::default();
    let reader = writer.build_reader().unwrap();
    reader.release(&mut writer);
    let _reader = writer.build_reader().unwrap();
}

#[test]
fn default_init() {
    let mut writer: Writer<i32, CounterAddOp> = Writer::default();
    let mut reader = writer.build_reader().unwrap();
    let guard = reader.lock(&mut writer);
    assert_eq!(guard.value, i32::default());
    guard.release(&mut writer);
    assert_eq!(*writer.read(), i32::default());
}

#[test]
fn drop_reader() {
    let mut writer: Writer<i32, CounterAddOp> = Writer::default();
    let reader = writer.build_reader().unwrap();

    assert!(!writer.is_unique());
    reader.release(&mut writer);
    assert!(writer.is_unique());
}

#[test]
fn write_guard_drop() {
    let mut writer: Writer<i32, CounterAddOp> = Writer::new(0);
    let mut reader = writer.build_reader().unwrap();
    let guard = reader.lock(&mut writer);
    assert_eq!(guard.value, 0);
    guard.release(&mut writer);
    let mut write_lock = writer.try_lock().unwrap();
    assert_eq!(*write_lock.read(&writer), 0);
    write_lock.apply_op(&mut writer, CounterAddOp(2));
    assert_eq!(*write_lock.read(&writer), 2);
    write_lock.swap(&mut writer);
    let write_lock = writer.try_lock().unwrap();
    assert_eq!(*write_lock.read(&writer), 2);
    write_lock.swap(&mut writer);
    let guard = reader.lock(&mut writer);
    assert_eq!(guard.value, 2);
    guard.release(&mut writer);
    let write_lock = writer.try_lock().unwrap();
    assert_eq!(*write_lock.read(&writer), 2);
    write_lock.swap(&mut writer);
}

#[test]
fn write_try_lock() {
    let mut writer: Writer<i32, CounterAddOp> = Writer::new(0);
    let mut lock = writer.try_lock().unwrap();
    lock.apply_op(&mut writer, CounterAddOp(1));
    assert_eq!(*lock.read(&writer), 1);
    lock.swap(&mut writer);
    let lock = writer.try_lock().unwrap();
    assert_eq!(*lock.read(&writer), 1);
    lock.swap(&mut writer);
}

#[test]
fn writer_as_ref() {
    let mut writer: Writer<i32, CounterAddOp> = Writer::new(0);
    assert_eq!(*writer.read(), 0);

    let mut lock = writer.try_lock().unwrap();
    lock.apply_op(&mut writer, CounterAddOp(3));
    lock.swap(&mut writer);
    assert_eq!(*writer.read(), 3);
}

#[test]
fn counter_saturates() {
    let mut writer: Writer<i32, CounterAddOp> = Writer::new(i32::MAX - 1);
    let mut lock = writer.try_lock().unwrap();
    lock.apply_op(&mut writer, CounterAddOp(5));
    assert_eq!(*lock.read(&writer), i32::MAX);
    lock.swap(&mut writer);
}
