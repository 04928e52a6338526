use elfo_dumper::params::{DumpParams, Level, OnOverflow};
use elfo_dumper::payload::Payload;
use elfo_dumper::record::{Direction, DumpRecord, MessageKind};
use elfo_dumper::report::OverflowDumpInfo;
use elfo_dumper::serializer::Serializer;
use fxhash::FxHashMap;
use serde::ser::SerializeStruct;

struct Sample {
    body: String,
}

impl serde::Serialize for Sample {
    fn serialize<S: serde::Serializer>(&self, serializer: S) -> Result<S::Ok, S::Error> {
        let mut s = serializer.serialize_struct("Some", 1)?;
        s.serialize_field("body", &self.body)?;
        s.end()
    }
}

struct Bad(FxHashMap<(u32, u32), u32>);

impl serde::Serialize for Bad {
    fn serialize<S: serde::Serializer>(&self, serializer: S) -> Result<S::Ok, S::Error> {
        serializer.serialize_newtype_struct("Bad", &self.0)
    }
}

fn encoded<T: serde::Serialize>(message: &T) -> Payload {
    let mut payload = Payload::new();
    if let Err(err) = serde_json::to_writer(&mut payload, message) {
        payload.set_defect(err.to_string());
    }
    payload
}

fn dump(sequence_no: u64, length: usize, is_good: bool) -> DumpRecord {
    let (message_name, message) = if is_good {
        (
            "Some",
            encoded(&Sample {
                body: "X".repeat(length),
            }),
        )
    } else {
        ("Bad", encoded(&Bad(vec![((0, 1), 2)].into_iter().collect())))
    };

    DumpRecord {
        timestamp: 2,
        group: "group".into(),
        key: "key".into(),
        sequence_no,
        trace_id: 1,
        thread_id: 0,
        direction: Direction::Out,
        message_name: message_name.into(),
        message_protocol: "some".into(),
        message_kind: MessageKind::Regular,
        message,
    }
}

fn line(sequence_no: u64, length: usize) -> String {
    let template = r#"{"ts":2,"g":"group","k":"key","n":65535,"s":SEQNO,"t":1,"th":0,"d":"Out","cl":"some","mn":"Some","mp":"some","mk":"Regular","m":{"body":"BODY"}}"#;
    template
        .replace("SEQNO", &sequence_no.to_string())
        .replace("BODY", &"X".repeat(length))
}

#[test]
fn normal() {
    let chunk_size = 1024;
    let mut serializer = Serializer::with_chunk_size(chunk_size, "some", 65535);

    let sample = dump(42, 4, true);
    let expected = line(42, 4);
    let mut expected_lines = chunk_size / (expected.len() + 1); // 1 for `\n`
    expected_lines += 1; // `append()` returns a chunk iff `chunk_size` is exceeded

    for _ in 0..5 {
        for _ in 1..expected_lines {
            assert!(serializer.append(&sample, &DumpParams::default()).is_none());
        }

        let (chunk, report) = serializer.append(&sample, &DumpParams::default()).unwrap();
        assert!(chunk.ends_with(b"\n"));
        assert_eq!(report.appended, expected_lines);
        assert!(report.failed.is_empty());
        assert!(report.overflow.is_empty());

        let chunk = std::str::from_utf8(chunk).unwrap();
        assert_eq!(chunk, format!("{expected}\n").repeat(expected_lines));
    }
}

#[test]
fn skipped() {
    let chunk_size = 1024;
    let mut serializer = Serializer::with_chunk_size(chunk_size, "some", 65535);

    let sample = dump(42, 4, true);
    let expected = line(42, 4);
    let mut expected_lines = chunk_size / (expected.len() + 1); // 1 for `\n`
    expected_lines += 1; // `append()` returns a chunk iff `chunk_size` is exceeded

    for _ in 1..expected_lines {
        assert!(serializer.append(&sample, &DumpParams::default()).is_none());

        // Must be skipped, too restrictive.
        let params = DumpParams {
            max_size: 5,
            ..DumpParams::default()
        };
        assert!(serializer.append(&sample, &params).is_none());

        // Must be skipped, cannot be serialized.
        assert!(serializer
            .append(&dump(1, 1, false), &DumpParams::default())
            .is_none());
    }

    let (chunk, report) = serializer.append(&sample, &DumpParams::default()).unwrap();
    assert!(chunk.ends_with(b"\n"));
    assert_eq!(report.appended, expected_lines);
    assert_eq!(report.overflow.len(), 1);
    assert_eq!(
        report.overflow.values().next().unwrap(),
        &OverflowDumpInfo {
            level: Level::Warn,
            count: expected_lines - 1,
        }
    );
    assert_eq!(report.failed.len(), 1);
    let failed_info = report.failed.values().next().unwrap();
    assert_eq!(failed_info.level, Level::Warn);
    assert_eq!(failed_info.count, expected_lines - 1);
    assert!(failed_info.error.to_string().contains("key must be a string"));

    let chunk = std::str::from_utf8(chunk).unwrap();
    assert_eq!(chunk, format!("{expected}\n").repeat(expected_lines));
}

#[test]
fn truncated() {
    let chunk_size = 1024;
    let mut serializer = Serializer::with_chunk_size(chunk_size, "some", 65535);

    let sample = dump(42, 4, true);
    let expected = r#"{"ts":2,"g":"group","k":"key","n":65535,"s":42,"t":1,"th":0,"d":"Out","cl":"some","mn":"Some","mp":"some","mk":"Regular","m":"{\"body\":\" TRUNCATED"}"#;
    let mut expected_lines = chunk_size / (expected.len() + 1); // 1 for `\n`
    expected_lines += 1; // `append()` returns a chunk iff `chunk_size` is exceeded

    let params = DumpParams {
        max_size: 10,
        on_overflow: OnOverflow::Truncate,
        ..DumpParams::default()
    };

    for _ in 1..expected_lines {
        // Must be truncated, too restrictive.
        assert!(serializer.append(&sample, &params).is_none());
    }

    // Must be truncated, too restrictive.
    let (chunk, report) = serializer.append(&sample, &params).unwrap();
    assert!(chunk.ends_with(b"\n"));
    assert_eq!(report.appended, expected_lines);
    assert_eq!(report.overflow.len(), 1);
    assert_eq!(
        report.overflow.values().next().unwrap(),
        &OverflowDumpInfo {
            level: Level::Warn,
            count: expected_lines,
        }
    );
    assert_eq!(report.failed.len(), 0);

    let chunk = std::str::from_utf8(chunk).unwrap();
    assert_eq!(chunk, format!("{expected}\n").repeat(expected_lines));
}

#[test]
fn take() {
    let chunk_size = 1024;
    let mut serializer = Serializer::with_chunk_size(chunk_size, "some", 65535);

    let sample = dump(42, 4, true);
    let expected = line(42, 4);
    let expected_lines = chunk_size / (expected.len() + 1); // 1 for `\n`

    for _ in 0..5 {
        for _ in 0..expected_lines {
            assert!(serializer.append(&sample, &DumpParams::default()).is_none());
        }

        let (chunk, report) = serializer.take().unwrap();
        assert!(chunk.ends_with(b"\n"));
        assert_eq!(report.appended, expected_lines);
        assert!(report.failed.is_empty());
        assert!(report.overflow.is_empty());

        let chunk = std::str::from_utf8(chunk).unwrap();
        assert_eq!(chunk, format!("{expected}\n").repeat(expected_lines));
    }
}

fn raw(parts: &[&[u8]]) -> Payload {
    let mut payload = Payload::new();
    for part in parts {
        payload.push(part);
    }
    payload
}

fn with_message(message: Payload) -> DumpRecord {
    let mut record = dump(42, 4, true);
    record.message = message;
    record
}

fn truncating(max_size: usize) -> DumpParams {
    DumpParams {
        max_size,
        on_overflow: OnOverflow::Truncate,
        ..DumpParams::default()
    }
}

#[test]
fn chunk_comes_with_the_crossing_line() {
    let mut serializer = Serializer::with_chunk_size(1024, "some", 65535);
    let sample = dump(42, 4, true);
    let expected = format!("{}\n", line(42, 4));
    assert_eq!(expected.len(), 142);

    // Seven lines are 994 bytes, the eighth makes 1136.
    for _ in 0..7 {
        assert!(serializer.append(&sample, &DumpParams::default()).is_none());
    }
    let (chunk, report) = serializer.append(&sample, &DumpParams::default()).unwrap();
    assert_eq!(chunk.len(), 1136);
    assert_eq!(chunk, expected.repeat(8).as_bytes());
    assert_eq!(report.appended, 8);
}

#[test]
fn chunk_at_exactly_the_threshold_stays() {
    let mut serializer = Serializer::with_chunk_size(284, "some", 65535);
    let sample = dump(42, 4, true);
    assert!(serializer.append(&sample, &DumpParams::default()).is_none());
    // Two lines are 284 bytes: not longer than the chunk size.
    assert!(serializer.append(&sample, &DumpParams::default()).is_none());
    let (chunk, report) = serializer.append(&sample, &DumpParams::default()).unwrap();
    assert_eq!(chunk.len(), 426);
    assert_eq!(report.appended, 3);
}

#[test]
fn lines_of_101_bytes_fill_a_chunk_of_1024() {
    // A line of 100 bytes and its terminator: ten of them stay below the
    // chunk size, the eleventh crosses it.
    let mut sample = DumpRecord {
        timestamp: 2,
        group: String::new(),
        key: String::new(),
        sequence_no: 1,
        trace_id: 1,
        thread_id: 0,
        direction: Direction::Out,
        message_name: "M".into(),
        message_protocol: "p".into(),
        message_kind: MessageKind::Regular,
        message: raw(&[b"0"]),
    };
    let mut probe = Serializer::new("c", 1);
    assert!(probe.append(&sample, &DumpParams::default()).is_none());
    let base = probe.take().unwrap().0.len();
    sample.group = "g".repeat(101 - base);

    let mut serializer = Serializer::with_chunk_size(1024, "c", 1);
    let mut lines = 0;
    for _ in 0..10 {
        assert!(serializer.append(&sample, &DumpParams::default()).is_none());
        lines += 1;
    }
    let (chunk, report) = serializer.append(&sample, &DumpParams::default()).unwrap();
    lines += 1;
    assert_eq!(chunk.len(), 101 * lines);
    assert_eq!(chunk.iter().filter(|byte| **byte == b'\n').count(), lines);
    assert_eq!(report.appended, lines);
    for one in chunk.split(|byte| *byte == b'\n').take(lines) {
        assert_eq!(one.len(), 100);
        assert_eq!(one, &chunk[..100]);
    }
    // The next period starts empty.
    assert!(serializer.take().is_none());
}

#[test]
fn tiny_budget_always_skips() {
    let mut serializer = Serializer::with_chunk_size(0, "some", 65535);
    let params = DumpParams {
        max_size: 5,
        ..DumpParams::default()
    };
    for calls in 1..=20 {
        assert!(serializer.append(&dump(calls, 0, true), &params).is_none());
    }
    // Nothing was buffered, so there is nothing to take.
    assert!(serializer.take().is_none());

    assert!(serializer
        .append(&dump(1, 0, true), &DumpParams::default())
        .is_some());
    let mut serializer = Serializer::with_chunk_size(1 << 20, "some", 65535);
    for calls in 1..=3 {
        assert!(serializer.append(&dump(calls, 0, true), &params).is_none());
    }
    assert!(serializer
        .append(&dump(9, 0, true), &DumpParams::default())
        .is_none());
    let (_, report) = serializer.take().unwrap();
    assert_eq!(report.appended, 1);
    assert_eq!(report.overflow_count("some", "Some", false), 3);
    assert_eq!(report.overflow_count("some", "Some", true), 0);
    assert!(report.failed.is_empty());
}

#[test]
fn take_gives_nothing_when_empty() {
    let mut serializer = Serializer::new("some", 1);
    assert!(serializer.take().is_none());
    assert!(serializer.take().is_none());
}

#[test]
fn take_gives_all_below_the_threshold_and_resets() {
    let mut serializer = Serializer::new("cls", 7);
    let sample = dump(1, 2, true);
    assert!(serializer.append(&sample, &DumpParams::default()).is_none());
    assert!(serializer
        .append(&dump(1, 1, false), &DumpParams::default())
        .is_none());
    let tight = DumpParams {
        max_size: 20,
        ..DumpParams::default()
    };
    assert!(serializer.append(&sample, &tight).is_none());

    let (chunk, report) = serializer.take().unwrap();
    assert_eq!(
        std::str::from_utf8(chunk).unwrap(),
        "{\"ts\":2,\"g\":\"group\",\"k\":\"key\",\"n\":7,\"s\":1,\"t\":1,\"th\":0,\"d\":\"Out\",\"cl\":\"cls\",\"mn\":\"Some\",\"mp\":\"some\",\"mk\":\"Regular\",\"m\":{\"body\":\"XX\"}}\n"
    );
    assert_eq!(report.appended, 1);
    assert_eq!(report.failed_count("some", "Bad"), 1);
    assert_eq!(report.overflow_count("some", "Some", false), 1);

    // Everything starts anew.
    assert!(serializer.take().is_none());
    assert!(serializer.append(&sample, &DumpParams::default()).is_none());
    let (chunk, report) = serializer.take().unwrap();
    assert_eq!(chunk.iter().filter(|byte| **byte == b'\n').count(), 1);
    assert_eq!(report.appended, 1);
    assert!(report.failed.is_empty());
    assert!(report.overflow.is_empty());
}

#[test]
fn failure_keeps_the_buffer() {
    let mut serializer = Serializer::new("some", 65535);
    let good = dump(42, 4, true);
    assert!(serializer.append(&good, &DumpParams::default()).is_none());

    for policy in [OnOverflow::Skip, OnOverflow::Truncate] {
        let params = DumpParams {
            on_overflow: policy,
            on_failure_log: Some(Level::Error),
            ..DumpParams::default()
        };
        assert!(serializer.append(&dump(1, 1, false), &params).is_none());
    }

    let (chunk, report) = serializer.take().unwrap();
    assert_eq!(chunk, format!("{}\n", line(42, 4)).as_bytes());
    assert_eq!(report.appended, 1);
    assert!(report.overflow.is_empty());
    assert_eq!(report.failed.len(), 1);
    let info = report.failed.values().next().unwrap();
    assert_eq!(info.count, 2);
    assert_eq!(info.level, Level::Error);
    assert_eq!(info.error, "key must be a string");
}

#[test]
fn failure_alone_leaves_nothing_to_take() {
    let mut serializer = Serializer::new("some", 65535);
    assert!(serializer
        .append(&dump(1, 1, false), &DumpParams::default())
        .is_none());
    assert!(serializer.take().is_none());
}

#[test]
fn skip_counts_each_overflow_once() {
    let mut serializer = Serializer::new("some", 65535);
    let sample = dump(42, 4, true);
    let exact = line(42, 4).len();

    let fits = DumpParams {
        max_size: exact,
        on_overflow_log: Some(Level::Info),
        ..DumpParams::default()
    };
    let too_small = DumpParams {
        max_size: exact - 1,
        on_overflow_log: Some(Level::Info),
        ..DumpParams::default()
    };
    assert!(serializer.append(&sample, &too_small).is_none());
    assert!(serializer.append(&sample, &fits).is_none());
    assert!(serializer.append(&sample, &too_small).is_none());

    let (chunk, report) = serializer.take().unwrap();
    assert_eq!(chunk, format!("{}\n", line(42, 4)).as_bytes());
    assert_eq!(report.appended, 1);
    assert!(report.failed.is_empty());
    assert_eq!(report.overflow.len(), 1);
    assert_eq!(
        report.overflow.values().next().unwrap(),
        &OverflowDumpInfo {
            level: Level::Info,
            count: 2,
        }
    );
    assert_eq!(report.overflow_count("some", "Some", false), 2);
}

#[test]
fn overflow_before_defect_is_an_overflow() {
    let mut serializer = Serializer::new("some", 65535);
    let tight = DumpParams {
        max_size: 30,
        ..DumpParams::default()
    };
    // The budget is spent before the defect of the payload can show.
    assert!(serializer.append(&dump(1, 1, false), &tight).is_none());
    assert!(serializer.take().is_none());
    assert!(serializer
        .append(&dump(1, 1, true), &DumpParams::default())
        .is_none());
    let (_, report) = serializer.take().unwrap();
    assert!(report.failed.is_empty());
    assert_eq!(report.overflow_count("some", "Bad", false), 1);
}

#[test]
fn truncate_marks_the_payload() {
    let mut serializer = Serializer::new("some", 65535);
    let sample = dump(42, 4, true);
    let params = DumpParams {
        on_overflow_log: Some(Level::Debug),
        ..truncating(10)
    };
    assert!(serializer.append(&sample, &params).is_none());

    let (chunk, report) = serializer.take().unwrap();
    let text = std::str::from_utf8(chunk).unwrap();
    let parsed: serde_json::Value = serde_json::from_str(text.trim_end()).unwrap();
    let payload = parsed["m"].as_str().unwrap();
    assert_eq!(payload, "{\"body\":\" TRUNCATED");
    assert!(payload.ends_with(" TRUNCATED"));
    assert_eq!(parsed["s"].as_u64(), Some(42));

    assert_eq!(report.appended, 1);
    assert!(report.failed.is_empty());
    assert_eq!(report.overflow.len(), 1);
    assert_eq!(report.overflow_count("some", "Some", true), 1);
    assert_eq!(report.overflow_count("some", "Some", false), 0);
    assert_eq!(
        report.overflow.values().next().unwrap(),
        &OverflowDumpInfo {
            level: Level::Debug,
            count: 1,
        }
    );
}

#[test]
fn truncate_keeps_what_the_budget_covers() {
    let mut serializer = Serializer::new("some", 65535);
    let sample = dump(42, 4, true);
    // The whole payload fits the budget, the line does not.
    assert!(serializer.append(&sample, &truncating(15)).is_none());
    // Nothing of the payload fits.
    assert!(serializer.append(&sample, &truncating(0)).is_none());

    let (chunk, report) = serializer.take().unwrap();
    let text = std::str::from_utf8(chunk).unwrap();
    let mut lines = text.lines();
    let first: serde_json::Value = serde_json::from_str(lines.next().unwrap()).unwrap();
    assert_eq!(first["m"].as_str(), Some("{\"body\":\"XXXX\"} TRUNCATED"));
    let second: serde_json::Value = serde_json::from_str(lines.next().unwrap()).unwrap();
    assert_eq!(second["m"].as_str(), Some(" TRUNCATED"));
    assert!(lines.next().is_none());
    assert_eq!(report.appended, 2);
    assert_eq!(report.overflow_count("some", "Some", true), 2);
}

#[test]
fn truncate_reads_broken_text_leniently() {
    let mut serializer = Serializer::new("some", 65535);
    // The budget ends inside a character of two bytes.
    let record = with_message(raw(&[b"\"", &[0xd0], &[0xb6], b"\""]));
    assert!(serializer.append(&record, &truncating(2)).is_none());

    let (chunk, report) = serializer.take().unwrap();
    let text = std::str::from_utf8(chunk).unwrap();
    let parsed: serde_json::Value = serde_json::from_str(text.trim_end()).unwrap();
    assert_eq!(parsed["m"].as_str(), Some("\"\u{fffd} TRUNCATED"));
    assert_eq!(report.overflow_count("some", "Some", true), 1);
}

#[test]
fn truncate_of_a_broken_payload_succeeds() {
    let mut serializer = Serializer::new("some", 65535);
    // The head alone exhausts the budget; the payload is then cut on its
    // own, where its defect does not matter.
    assert!(serializer.append(&dump(1, 1, false), &truncating(12)).is_none());
    let (chunk, report) = serializer.take().unwrap();
    let text = std::str::from_utf8(chunk).unwrap();
    let parsed: serde_json::Value = serde_json::from_str(text.trim_end()).unwrap();
    assert_eq!(parsed["m"].as_str(), Some("{ TRUNCATED"));
    assert_eq!(parsed["mn"].as_str(), Some("Bad"));
    assert_eq!(report.appended, 1);
    assert!(report.failed.is_empty());
    assert_eq!(report.overflow_count("some", "Bad", true), 1);
}

#[test]
fn no_severity_keeps_events_out_of_the_report() {
    let mut serializer = Serializer::new("some", 65535);
    let quiet = DumpParams {
        max_size: 5,
        on_failure_log: None,
        on_overflow_log: None,
        ..DumpParams::default()
    };
    assert!(serializer.append(&dump(42, 4, true), &quiet).is_none());
    let quiet_failure = DumpParams {
        on_failure_log: None,
        ..DumpParams::default()
    };
    assert!(serializer.append(&dump(1, 1, false), &quiet_failure).is_none());
    let quiet_truncation = DumpParams {
        on_overflow_log: None,
        ..truncating(10)
    };
    assert!(serializer
        .append(&dump(42, 4, true), &quiet_truncation)
        .is_none());

    let (chunk, report) = serializer.take().unwrap();
    assert_eq!(chunk.iter().filter(|byte| **byte == b'\n').count(), 1);
    assert_eq!(report.appended, 1);
    assert!(report.failed.is_empty());
    assert!(report.overflow.is_empty());
}

#[test]
fn default_chunk_size_is_128_kib() {
    let mut serializer = Serializer::new("some", 65535);
    let sample = dump(42, 1000, true);
    let size = line(42, 1000).len() + 1;
    let mut total = 0;
    loop {
        total += size;
        match serializer.append(&sample, &DumpParams::default()) {
            Some((chunk, _)) => {
                assert_eq!(chunk.len(), total);
                break;
            }
            None => assert!(total <= 128 * 1024),
        }
    }
    assert!(total > 128 * 1024);
}

#[test]
fn try_append_does_what_append_does() {
    let mut serializer = Serializer::with_chunk_size(100, "some", 65535);
    let sample = dump(42, 4, true);
    assert!(serializer.has_room(&sample));
    let (chunk, report) = serializer
        .try_append(&sample, &DumpParams::default())
        .unwrap()
        .unwrap();
    assert_eq!(chunk, format!("{}\n", line(42, 4)).as_bytes());
    assert_eq!(report.appended, 1);
    assert!(serializer.take().is_none());
}

#[test]
fn request_and_response_carry_their_id() {
    let mut serializer = Serializer::new("some", 3);
    let mut record = dump(5, 1, true);
    record.key = String::new();
    record.direction = Direction::In;
    record.message_kind = MessageKind::Request(77);
    assert!(serializer.append(&record, &DumpParams::default()).is_none());
    record.message_kind = MessageKind::Response(78);
    assert!(serializer.append(&record, &DumpParams::default()).is_none());

    let (chunk, _) = serializer.take().unwrap();
    assert_eq!(
        std::str::from_utf8(chunk).unwrap(),
        "{\"ts\":2,\"g\":\"group\",\"n\":3,\"s\":5,\"t\":1,\"th\":0,\"d\":\"In\",\"cl\":\"some\",\"mn\":\"Some\",\"mp\":\"some\",\"mk\":\"Request\",\"m\":{\"body\":\"X\"},\"c\":77}\n\
         {\"ts\":2,\"g\":\"group\",\"n\":3,\"s\":5,\"t\":1,\"th\":0,\"d\":\"In\",\"cl\":\"some\",\"mn\":\"Some\",\"mp\":\"some\",\"mk\":\"Response\",\"m\":{\"body\":\"X\"},\"c\":78}\n"
    );
}
