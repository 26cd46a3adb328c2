use std::io::BufRead;

use lokin::error::LokinError;
use lokin::session::{SessionEvent, SessionId, StoredEvent};
use lokin::storage::{
    data_directory, frame_records, mutate_bytes, read_bytes, read_log, settle, split_lines,
    EventStore, LogLine,
};
use lokin::time::Timestamp;
use serde_json::Value;

fn start_event() -> StoredEvent {
    StoredEvent::new(
        SessionId::random(),
        Timestamp::now(),
        SessionEvent::SessionStarted {
            goal: "Test persistence".to_string(),
            duration_minutes: 25,
        },
    )
}

/// One line of JSON for a start or a pause.
fn encode(event: &StoredEvent) -> Vec<u8> {
    let (seconds, nanos) = event.occurred_at.parts();
    let goal = match &event.event {
        SessionEvent::SessionStarted { goal, .. } => Value::from(goal.as_str()),
        _ => Value::Null,
    };
    let fields = vec![
        Value::from(event.schema_version),
        Value::from(event.session_id.text()),
        Value::from(seconds),
        Value::from(nanos),
        goal,
    ];
    serde_json::to_vec(&Value::Array(fields)).unwrap()
}

fn decode(text: &str) -> Result<StoredEvent, String> {
    let value: Value = serde_json::from_str(text).map_err(|error| error.to_string())?;
    let id = uuid::Uuid::parse_str(value[1].as_str().unwrap()).unwrap();
    let event = match value[4].as_str() {
        Some(goal) => SessionEvent::SessionStarted {
            goal: goal.to_string(),
            duration_minutes: 25,
        },
        None => SessionEvent::SessionPaused,
    };
    Ok(StoredEvent {
        schema_version: value[0].as_u64().unwrap() as u16,
        session_id: SessionId {
            value: id.as_u128(),
        },
        occurred_at: Timestamp::from_parts(
            value[2].as_i64().unwrap(),
            value[3].as_u64().unwrap() as u32,
        )
        .unwrap(),
        event,
    })
}

fn log_line(line: &[u8]) -> LogLine {
    match String::from_utf8(line.to_vec()) {
        Ok(text) => {
            let decoded = decode(&text);
            LogLine::Text { text, decoded }
        }
        Err(_) => LogLine::Unreadable("stream did not contain valid UTF-8".to_string()),
    }
}

/// The bytes of a log file, read and written as a store does it.
struct Log {
    bytes: Vec<u8>,
}

impl Log {
    fn read_all(&self) -> Result<Vec<StoredEvent>, LokinError> {
        read_bytes(&self.bytes, log_line)
    }

    fn mutate<T, F>(&mut self, operation: F) -> Result<T, LokinError>
    where
        F: FnOnce(&[StoredEvent]) -> Result<(T, Vec<StoredEvent>), LokinError>,
    {
        let (value, appended) = mutate_bytes(&self.bytes, log_line, operation)?;
        let records: Vec<Vec<u8>> = appended.iter().map(encode).collect();
        if let Some(payload) = frame_records(&records) {
            self.bytes.extend(payload);
        }
        settle(Ok(value), Ok(()))
    }
}

#[test]
fn creates_directory_and_round_trips_events() {
    let store = EventStore::new("data/nested".to_string());
    assert_eq!(store.data_dir(), "data/nested");
    assert_eq!(store.events_path(), "data/nested/events.jsonl");
    assert_eq!(store.lock_path(), "data/nested/events.lock");

    let mut log = Log { bytes: Vec::new() };
    let event = start_event();
    log.mutate(|events| {
        assert!(events.is_empty());
        Ok(((), vec![event.clone()]))
    })
    .unwrap();

    assert_eq!(log.read_all().unwrap(), vec![event]);
}

#[test]
fn appends_batches_in_order() {
    let mut log = Log { bytes: Vec::new() };
    let started = start_event();
    let paused = StoredEvent::new(
        started.session_id,
        started.occurred_at,
        SessionEvent::SessionPaused,
    );

    log.mutate(|_| Ok(((), vec![started.clone(), paused.clone()])))
        .unwrap();

    assert_eq!(log.read_all().unwrap(), vec![started, paused]);
}

#[test]
fn failed_mutation_appends_nothing() {
    let mut log = Log { bytes: Vec::new() };

    let result: Result<(), LokinError> = log.mutate(|_| {
        Err(LokinError::InvalidTransition(
            "transition rejected".to_string(),
        ))
    });

    assert!(matches!(result, Err(LokinError::InvalidTransition(_))));
    assert!(log.read_all().unwrap().is_empty());
}

#[test]
fn reports_corrupt_line_number() {
    let log = Log {
        bytes: b"\nnot-json\n".to_vec(),
    };

    let error = log.read_all().unwrap_err();
    assert!(error.message().contains("line 2"));
    assert!(matches!(error, LokinError::CorruptLog(_)));
}

#[test]
fn rejects_unknown_schema_version() {
    let mut event = start_event();
    event.schema_version = 2;
    let log = Log {
        bytes: frame_records(&[encode(&event)]).unwrap(),
    };

    assert!(matches!(
        log.read_all(),
        Err(LokinError::UnsupportedSchemaVersion(2))
    ));
}

#[test]
fn the_first_wrong_line_is_told() {
    let unreadable = || LogLine::Unreadable("bad bytes".to_string());
    let garbled = || LogLine::Text {
        text: "x".to_string(),
        decoded: Err("expected value".to_string()),
    };
    let blank = || LogLine::Text {
        text: " \t".to_string(),
        decoded: Err("nothing there".to_string()),
    };
    assert!(read_log(&[blank(), blank()]).unwrap().is_empty());
    assert_eq!(
        read_log(&[blank(), garbled(), unreadable()])
            .unwrap_err()
            .message(),
        "Event log is invalid: line 2 is not valid JSON: expected value"
    );
    assert_eq!(
        read_log(&[unreadable(), garbled()]).unwrap_err().message(),
        "Storage error: bad bytes"
    );
}

#[test]
fn lines_end_with_newlines() {
    assert_eq!(frame_records(&[]), None);
    assert_eq!(
        frame_records(&[b"ab".to_vec(), Vec::new()]).unwrap(),
        b"ab\n\n"
    );
    let lines = |bytes: &[u8]| -> Vec<String> {
        split_lines(bytes)
            .into_iter()
            .map(|line| String::from_utf8(line).unwrap())
            .collect()
    };
    assert!(lines(b"").is_empty());
    assert_eq!(lines(b"\n"), [""]);
    assert_eq!(lines(b"a\nb"), ["a", "b"]);
    assert_eq!(lines(b"a\r\n\r\nb\r"), ["a", "", "b\r"]);
    assert_eq!(lines(b"a\r\r\n"), ["a\r"]);
}

#[test]
fn lines_are_those_of_the_standard_library() {
    for text in ["", "\n", "a", "a\n", "a\r\n", "\r\n\r", "a\r", "\n\nx\r\r\n\n"] {
        let expected: Vec<String> = text.as_bytes().lines().map(Result::unwrap).collect();
        let found: Vec<String> = split_lines(text.as_bytes())
            .into_iter()
            .map(|line| String::from_utf8(line).unwrap())
            .collect();
        assert_eq!(found, expected);
    }
}

#[test]
fn the_log_gives_back_what_was_written() {
    let records: Vec<Vec<u8>> = [&b"{}"[..], b"[1, 2]", b"\"\xc3\xa9\""]
        .iter()
        .map(|record| record.to_vec())
        .collect();
    let mut bytes = b"old\n".to_vec();
    bytes.extend(frame_records(&records).unwrap());
    let lines = split_lines(&bytes);
    assert_eq!(lines[0], b"old");
    assert_eq!(lines[1..], records[..]);
}

#[test]
fn the_data_directory_can_be_set() {
    let set = data_directory(Some("mine"), false, Some("system"));
    assert_eq!(set.unwrap(), "mine");
    let empty = data_directory(Some(""), true, Some("system"));
    assert_eq!(empty.unwrap(), "system");
    let unset = data_directory(None, false, Some("system"));
    assert_eq!(unset.unwrap(), "system");
    let none: Result<&str, LokinError> = data_directory(None, false, None);
    assert!(matches!(none, Err(LokinError::DataDirectoryUnavailable)));
}

#[test]
fn a_failure_under_a_lock_goes_before_one_to_unlock() {
    let work = || LokinError::NoActiveSession;
    let lock = || LokinError::Io("unlock".to_string());
    assert!(settle::<_, LokinError>(Ok(5), Ok(())).is_ok());
    assert!(matches!(settle(Ok(5), Err(lock())), Err(LokinError::Io(_))));
    assert!(matches!(
        settle::<(), _>(Err(work()), Err(lock())),
        Err(LokinError::NoActiveSession)
    ));
}

#[test]
fn a_log_lies_in_its_directory() {
    for (dir, events) in [
        ("/x/lokin", "/x/lokin/events.jsonl"),
        ("/x/lokin/", "/x/lokin/events.jsonl"),
        ("a/../b", "a/../b/events.jsonl"),
        ("", "events.jsonl"),
    ] {
        let store = EventStore::new(dir.to_string());
        assert_eq!(store.data_dir(), dir);
        assert_eq!(store.events_path(), events);
        assert_eq!(store.lock_path(), events.replace("jsonl", "lock"));
    }
}

#[test]
fn a_mutation_is_read_back() {
    let mut log = Log { bytes: Vec::new() };
    let mut held = Vec::new();
    for count in [1, 0, 3, 2] {
        let new: Vec<StoredEvent> = (0..count).map(|_| start_event()).collect();
        let before = log.bytes.clone();
        let given = log
            .mutate(|events| Ok((events.to_vec(), new.clone())))
            .unwrap();
        assert_eq!(given, held);
        assert_eq!(log.bytes == before, new.is_empty());
        held.extend(new);
        assert_eq!(log.read_all().unwrap(), held);
    }
    let before = log.bytes.clone();
    let refused: Result<(), LokinError> = log.mutate(|_| Err(LokinError::NoActiveSession));
    assert!(matches!(refused, Err(LokinError::NoActiveSession)));
    assert_eq!(log.bytes, before);
}

#[test]
fn there_is_no_operation_on_a_log_that_cannot_be_read() {
    let mut log = Log {
        bytes: b"not-json\n\xff\n".to_vec(),
    };
    let mut called = false;
    let result: Result<(), LokinError> = log.mutate(|_| {
        called = true;
        Ok(((), vec![start_event()]))
    });
    assert!(matches!(result, Err(LokinError::CorruptLog(_))));
    assert!(!called);
    assert_eq!(log.bytes, b"not-json\n\xff\n");

    log.bytes = b"\xff\nnot-json\n".to_vec();
    assert_eq!(
        log.read_all().unwrap_err().message(),
        "Storage error: stream did not contain valid UTF-8"
    );
}
