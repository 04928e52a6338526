use std::io::Write;

use elfo_dumper::params::{DumpParams, Level, OnOverflow, DEFAULT_MAX_SIZE};
use elfo_dumper::payload::Payload;
use elfo_dumper::writer::BoundedWriter;

#[test]
fn put_takes_what_fits() {
    let mut writer = BoundedWriter::new(b"ab".to_vec(), 5);
    assert!(writer.put(b"cde"));
    assert_eq!(writer.remaining(), 2);
    assert!(writer.put(b"fg"));
    assert_eq!(writer.remaining(), 0);
    assert_eq!(writer.into_sink(), b"abcdefg".to_vec());
}

#[test]
fn put_refuses_whole_and_keeps_state() {
    let mut writer = BoundedWriter::new(Vec::new(), 5);
    assert!(writer.put(b"abc"));
    assert!(!writer.put(b"def"));
    assert_eq!(writer.remaining(), 2);
    // A smaller write still fits afterwards.
    assert!(writer.put(b"gh"));
    assert!(!writer.put(b"i"));
    assert_eq!(writer.into_sink(), b"abcgh".to_vec());
}

#[test]
fn put_takes_empty_without_budget() {
    let mut writer = BoundedWriter::new(Vec::new(), 0);
    assert!(writer.put(b""));
    assert!(!writer.put(b"a"));
    assert_eq!(writer.remaining(), 0);
    assert!(writer.into_sink().is_empty());
}

#[test]
fn write_reports_refusal_as_zero() {
    let mut writer = BoundedWriter::new(Vec::new(), 4);
    assert_eq!(writer.write(b"abcd").unwrap(), 4);
    assert_eq!(writer.write(b"e").unwrap(), 0);
    assert_eq!(writer.remaining(), 0);
    assert!(writer.flush().is_ok());
    assert_eq!(writer.into_sink(), b"abcd".to_vec());
}

#[test]
fn write_all_fails_when_exhausted() {
    let mut writer = BoundedWriter::new(Vec::new(), 4);
    assert!(writer.write_all(b"ab").is_ok());
    let err = writer.write_all(b"cde").unwrap_err();
    assert_eq!(err.kind(), std::io::ErrorKind::WriteZero);
    assert_eq!(writer.into_sink(), b"ab".to_vec());
}

#[test]
fn encoder_sees_exhaustion_as_io_error() {
    let mut writer = BoundedWriter::new(Vec::new(), 9);
    let err = serde_json::to_writer(&mut writer, "0123456789").unwrap_err();
    assert!(err.is_io());
    // The opening quote went in, the text did not.
    assert_eq!(writer.into_sink(), b"\"".to_vec());

    let mut writer = BoundedWriter::new(Vec::new(), 12);
    serde_json::to_writer(&mut writer, "0123456789").unwrap();
    assert_eq!(writer.remaining(), 0);
    assert_eq!(writer.into_sink(), b"\"0123456789\"".to_vec());
}

#[test]
fn payload_records_pieces_in_order() {
    let mut payload = Payload::new();
    assert!(payload.pieces.is_empty());
    assert!(payload.defect.is_none());
    payload.push(b"ab");
    assert_eq!(payload.write(b"cde").unwrap(), 3);
    assert!(payload.flush().is_ok());
    payload.push(b"");
    assert_eq!(
        payload.pieces,
        vec![b"ab".to_vec(), b"cde".to_vec(), Vec::new()]
    );
    assert!(payload.defect.is_none());
    payload.set_defect("broken".to_string());
    assert_eq!(payload.defect.as_deref(), Some("broken"));
    assert_eq!(payload.pieces.len(), 3);
}

#[test]
fn payload_records_what_the_encoder_writes() {
    let mut payload = Payload::new();
    serde_json::to_writer(&mut payload, &vec!["a", "b"]).unwrap();
    let joined: Vec<u8> = payload.pieces.concat();
    assert_eq!(joined, b"[\"a\",\"b\"]".to_vec());
    assert!(payload.pieces.len() > 1);
}

#[test]
fn default_params() {
    let params = DumpParams::default();
    assert_eq!(params.max_size, 65536);
    assert_eq!(DEFAULT_MAX_SIZE, 64 * 1024);
    assert_eq!(params.on_overflow, OnOverflow::Skip);
    assert_eq!(params.on_failure_log, Some(Level::Warn));
    assert_eq!(params.on_overflow_log, Some(Level::Warn));
}
