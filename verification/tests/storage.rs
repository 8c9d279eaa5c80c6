use diffmetrik::metrics::errors::{CtlErrorWrapper, Error};
use diffmetrik::storage::envelope::seal;
use diffmetrik::storage::{Storage, StorageError, WriteAction};
use diffmetrik::time::Duration;

fn store(min_secs: u64) -> Storage {
    Storage::new("/tmp", "diffmetrik.json".to_string(), Duration::new(min_secs, 0), false)
}

fn test_struct(test_string: &str) -> String {
    let mut map = serde_json::Map::new();
    map.insert("test_string".to_string(), serde_json::Value::String(test_string.to_string()));
    serde_json::to_string(&serde_json::Value::Object(map)).unwrap()
}

/// The time and the payload's text that a JSON parser finds in `content`.
fn stored(content: &str) -> (Duration, String) {
    let value: serde_json::Value = serde_json::from_str(content).unwrap();
    let time = Duration::new(
        value["time"]["secs"].as_u64().unwrap(),
        value["time"]["nanos"].as_u64().unwrap() as u32,
    );
    (time, serde_json::to_string(&value["payload"]).unwrap())
}

fn rewritten(action: WriteAction) -> (u64, String) {
    match action {
        WriteAction::Rewrite { len, content } => (len, content),
        WriteAction::Keep => panic!("the file was to be written"),
    }
}

#[test]
fn path_set_correctly() {
    let path = "diffmetrik_test_path.json".to_string();
    let s = Storage::new("/tmp", path.to_string(), Duration::new(0, 0), true);
    let full_path = std::path::PathBuf::from(s.path());
    assert_eq!(full_path.ends_with(path), true);
}

#[test]
fn path_is_joined_as_paths_are() {
    for (dir, name) in [("/tmp", "a.json"), ("/tmp/", "a.json"), ("/tmp", "/var/a.json"), ("", "a.json"), ("/", "a"), ("rel", "")] {
        let s = Storage::new(dir, name.to_string(), Duration::new(0, 0), false);
        let mut p = std::path::PathBuf::from(dir);
        p.push(name);
        assert_eq!(std::path::Path::new(s.path()), p.as_path());
        assert_eq!(s.path(), p.to_str().unwrap());
    }
}

#[test]
fn store_keeps_its_settings() {
    let s = Storage::new("/tmp", "x".to_string(), Duration::new(3, 4), true);
    assert_eq!(s.min_duration(), Duration::new(3, 4));
    assert!(s.debug());
    assert!(!store(0).debug());
}

#[test]
fn write_into_a_file_without_envelope() {
    let s = store(1000);
    let w = test_struct("something");
    let (len, content) = rewritten(s.write(None, Duration::new(1, 2), &w));
    assert_eq!(content, "{\"time\":{\"secs\":1,\"nanos\":2},\"payload\":{\"test_string\":\"something\"}}");
    assert_eq!(len, content.len() as u64);
}

#[test]
fn write_cuts_the_file_to_the_new_length() {
    let s = store(0);
    let (len1, content1) = rewritten(s.write(None, Duration::new(100, 0), &test_struct("something")));
    let (len2, content2) = rewritten(s.write(
        Some(Duration::new(100, 0)),
        Duration::new(100, 0),
        &test_struct("som"),
    ));
    assert!(len1 > len2, "file was not properly truncated during write");
    assert_eq!(len2, content2.len() as u64);
    let mut file = content1.into_bytes();
    file.resize(len2 as usize, 0);
    file[..content2.len()].copy_from_slice(content2.as_bytes());
    assert_eq!(file, content2.as_bytes());
}

#[test]
fn write_counts_bytes_not_characters() {
    let s = store(0);
    let (len, content) = rewritten(s.write(None, Duration::new(1, 0), "\"\u{00e9}\u{4e16}\""));
    assert_eq!(len, content.len() as u64);
    assert_eq!(len as usize, content.chars().count() + 3);
    assert_eq!(stored(&content), (Duration::new(1, 0), "\"\u{00e9}\u{4e16}\"".to_string()));
}

#[test]
fn write_is_throttled() {
    let s = store(10);
    let first = Some(Duration::new(100, 500));
    assert!(matches!(s.write(first, Duration::new(100, 500), "2"), WriteAction::Keep));
    assert!(matches!(s.write(first, Duration::new(110, 499), "2"), WriteAction::Keep));
    assert!(matches!(s.write(first, Duration::new(50, 0), "2"), WriteAction::Keep));
    let (_, second) = rewritten(s.write(first, Duration::new(110, 500), "2"));
    assert_eq!(stored(&second), (Duration::new(110, 500), "2".to_string()));
    let (_, second) = rewritten(s.write(first, Duration::new(111, 0), "2"));
    assert_eq!(stored(&second), (Duration::new(111, 0), "2".to_string()));
}

#[test]
fn write_is_due_where_no_time_was_found() {
    let s = store(3600);
    let (_, content) = rewritten(s.write(None, Duration::new(300, 0), "[]"));
    assert_eq!(content, "{\"time\":{\"secs\":300,\"nanos\":0},\"payload\":[]}");
    assert!(matches!(s.write(Some(Duration::new(200, 0)), Duration::new(300, 0), "[]"), WriteAction::Keep));
}

#[test]
fn envelope_round_trip() {
    for (secs, nanos, payload) in [
        (0u64, 0u32, "null"),
        (u64::MAX, 999_999_999, "{\"metrics\":[]}"),
        (10, 1, "\"}\""),
        (1700000000, 123456789, "{\"a\":\"}\",\"payload\":1}"),
    ] {
        let content = seal(&Duration::new(secs, nanos), payload);
        assert_eq!(stored(&content), (Duration::new(secs, nanos), payload.to_string()));
    }
}

#[test]
fn envelope_is_the_text_that_serde_writes() {
    let content = seal(&Duration::new(1700000000, 42), "{\"metrics\":[]}");
    assert_eq!(content, "{\"time\":{\"secs\":1700000000,\"nanos\":42},\"payload\":{\"metrics\":[]}}");
    let mut time = serde_json::Map::new();
    time.insert("secs".to_string(), serde_json::Value::from(1700000000u64));
    time.insert("nanos".to_string(), serde_json::Value::from(42u32));
    let mut payload = serde_json::Map::new();
    payload.insert("metrics".to_string(), serde_json::Value::Array(Vec::new()));
    let mut envelope = serde_json::Map::new();
    envelope.insert("time".to_string(), serde_json::Value::Object(time));
    envelope.insert("payload".to_string(), serde_json::Value::Object(payload));
    let value: serde_json::Value = serde_json::from_str(&content).unwrap();
    assert_eq!(value, serde_json::Value::Object(envelope));
}

#[test]
fn io_error_carries_the_path() {
    let s = Storage::new("/tmp", "a \"b\".json".to_string(), Duration::new(0, 0), false);
    match s.io_error("denied".to_string()) {
        StorageError::IO { source, path } => {
            assert_eq!(source, "denied");
            assert_eq!(path, "\"/tmp/a \\\"b\\\".json\"");
            assert_eq!(path, format!("{:?}", std::path::Path::new(s.path())));
        }
        _ => panic!("not an i/o error"),
    }
}

#[test]
fn storage_error_texts() {
    let e = store(0).io_error("denied".to_string());
    assert_eq!(e.to_string(), "Storage Error: denied");
    let e = StorageError::Serialization { source: "bad".to_string() };
    assert_eq!(e.to_string(), "Storage Error: bad");
    let e = StorageError::Time { source: "early".to_string() };
    assert_eq!(e.to_string(), "Storage Error: early");
}

#[test]
fn control_error_has_no_name() {
    let w = CtlErrorWrapper::new(sysctl::SysctlError::NotFound("vm.loadavg".to_string()));
    assert_eq!(w.message(), "Unknown SysCtl error");
    assert_eq!(w.to_string(), "Unknown SysCtl error");
    match Error::from(w) {
        Error::CtlError { message } => assert_eq!(message, "Unknown SysCtl error"),
        _ => panic!("not a control error"),
    }
}
