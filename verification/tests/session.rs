use diffmetrik::storage::session::{Outcome, Reply, Request, Session};
use diffmetrik::storage::{Storage, StorageError};
use diffmetrik::time::Duration;

/// A file in memory, a clock, and a JSON parser for the envelope. A step
/// whose name is in `fail` fails.
struct Disk {
    file: Option<Vec<u8>>,
    locked: bool,
    now: Duration,
    fail: &'static str,
    log: Vec<&'static str>,
    text: String,
    payload: Option<String>,
}

fn disk(file: Option<&str>, now: Duration) -> Disk {
    Disk {
        file: file.map(|s| s.as_bytes().to_vec()),
        locked: false,
        now,
        fail: "",
        log: Vec::new(),
        text: String::new(),
        payload: None,
    }
}

/// The time and the payload of the envelope `text`, as a JSON parser reads
/// an object of a time and a payload whose one field is a string.
fn parse(text: &str) -> Result<(Duration, String), String> {
    let value: serde_json::Value = serde_json::from_str(text).map_err(|e| e.to_string())?;
    let secs = value["time"]["secs"].as_u64().ok_or("no seconds")?;
    let nanos = value["time"]["nanos"].as_u64().ok_or("no nanoseconds")?;
    let payload = value.get("payload").ok_or("no payload")?;
    payload.get("test_string").and_then(|v| v.as_str()).ok_or("no test string")?;
    Ok((Duration::new(secs, nanos as u32), serde_json::to_string(payload).unwrap()))
}

fn run(store: &Storage, disk: &mut Disk, mut session: Session) -> Outcome {
    disk.payload = None;
    for _ in 0..8 {
        let request = session.request();
        let name = match &request {
            Request::Open { .. } => "open",
            Request::Lock { .. } => "lock",
            Request::ReadAll => "read",
            Request::Parse => "parse",
            Request::Clock => "clock",
            Request::Rewrite { .. } => "rewrite",
            Request::Unlock => "unlock",
            Request::Finish => "finish",
        };
        disk.log.push(name);
        let reply = if name == disk.fail {
            Reply::Failed(format!("{} failed", name))
        } else {
            match request {
                Request::Open { write } => {
                    if disk.file.is_none() && write {
                        disk.file = Some(Vec::new());
                    }
                    if disk.file.is_some() {
                        Reply::Done
                    } else {
                        Reply::Failed("no such file".to_string())
                    }
                }
                Request::Lock { .. } => {
                    assert!(!disk.locked);
                    disk.locked = true;
                    Reply::Done
                }
                Request::ReadAll => {
                    assert!(disk.locked);
                    disk.text = String::from_utf8(disk.file.clone().unwrap()).unwrap();
                    Reply::Done
                }
                Request::Parse => match parse(&disk.text) {
                    Ok((time, payload)) => {
                        disk.payload = Some(payload);
                        Reply::Time(time)
                    }
                    Err(why) => Reply::Failed(why),
                },
                Request::Clock => Reply::Time(disk.now),
                Request::Rewrite { len, content } => {
                    assert!(disk.locked);
                    let file = disk.file.as_mut().unwrap();
                    file.resize(len as usize, 0);
                    file[..content.len()].copy_from_slice(content.as_bytes());
                    Reply::Done
                }
                Request::Unlock => {
                    assert!(disk.locked);
                    disk.locked = false;
                    Reply::Done
                }
                Request::Finish => {
                    assert!(!disk.locked || disk.fail == "unlock");
                    return session.outcome().unwrap();
                }
            }
        };
        session = session.step(store, reply);
    }
    panic!("the session did not end");
}

fn store(min_secs: u64) -> Storage {
    Storage::new("/tmp", "diffmetrik.json".to_string(), Duration::new(min_secs, 0), false)
}

fn text(disk: &Disk) -> String {
    String::from_utf8(disk.file.clone().unwrap()).unwrap()
}

fn test_struct(test_string: &str) -> String {
    let mut map = serde_json::Map::new();
    map.insert("test_string".to_string(), serde_json::Value::String(test_string.to_string()));
    serde_json::to_string(&serde_json::Value::Object(map)).unwrap()
}

#[test]
fn file_write() {
    let s = Storage::new("/tmp", "diffmetrik_test_write.json".to_string(), Duration::new(0, 0), true);
    let mut d = disk(None, Duration::new(7, 9));
    assert!(d.file.is_none(), "the file should not exist at the beginning of test");
    let res = run(&s, &mut d, Session::write(test_struct("something")));
    match res {
        Ok(_) => assert!(true),
        Err(e) => panic!("writing failed with {}", e.to_string()),
    }
    assert!(d.file.is_some(), "the file should exist at the end of test")
}

#[test]
fn file_write_len() {
    let s =
        Storage::new("/tmp", "diffmetrik_test_write_len.json".to_string(), Duration::new(0, 0), true);
    let mut d = disk(None, Duration::new(7, 9));
    run(&s, &mut d, Session::write(test_struct("something"))).expect("written w1");
    let len1 = d.file.as_ref().expect("metadata").len();
    run(&s, &mut d, Session::write(test_struct("som"))).expect("written w2");
    let len2 = d.file.as_ref().expect("metadata").len();
    assert!(len1 > len2, "file was not properly truncated during write")
}

#[test]
fn file_read() {
    let s = Storage::new("/tmp", "diffmetrik_test_read.json".to_string(), Duration::new(0, 0), true);
    let mut d = disk(None, Duration::new(7, 9));
    let payload = "something".to_string();
    run(&s, &mut d, Session::write(test_struct(&payload))).expect("file written");
    let res = run(&s, &mut d, Session::read());
    match res {
        Ok(()) => assert!(
            d.payload == Some(test_struct(&payload)),
            "payload after read was different from payload written"
        ),
        Err(e) => panic!("error reading: {}", e.to_string()),
    }
}

#[test]
fn session_of_a_writing() {
    let s = store(0);
    let mut d = disk(None, Duration::new(7, 9));
    let r = run(&s, &mut d, Session::write(test_struct("something")));
    assert!(matches!(r, Ok(())));
    assert_eq!(
        d.log,
        vec!["open", "lock", "read", "parse", "clock", "rewrite", "unlock", "finish"]
    );
    assert_eq!(
        text(&d),
        "{\"time\":{\"secs\":7,\"nanos\":9},\"payload\":{\"test_string\":\"something\"}}"
    );
}

#[test]
fn session_of_a_reading() {
    let s = store(0);
    let mut d = disk(None, Duration::new(7, 9));
    run(&s, &mut d, Session::write(test_struct("something"))).unwrap();
    d.log.clear();
    run(&s, &mut d, Session::read()).unwrap();
    assert_eq!(d.payload, Some(test_struct("something")));
    assert_eq!(d.log, vec!["open", "lock", "read", "unlock", "parse", "finish"]);
}

#[test]
fn session_cuts_the_file() {
    let s = store(0);
    let mut d = disk(None, Duration::new(7, 9));
    run(&s, &mut d, Session::write(test_struct("something"))).unwrap();
    run(&s, &mut d, Session::write(test_struct("som"))).unwrap();
    assert_eq!(text(&d), "{\"time\":{\"secs\":7,\"nanos\":9},\"payload\":{\"test_string\":\"som\"}}");
    run(&s, &mut d, Session::read()).unwrap();
    assert_eq!(d.payload, Some(test_struct("som")));
}

#[test]
fn session_leaves_the_file_within_the_least_span() {
    let s = store(10);
    let mut d = disk(None, Duration::new(100, 0));
    run(&s, &mut d, Session::write(test_struct("1"))).unwrap();
    let first = text(&d);
    d.now = Duration::new(109, 999_999_999);
    d.log.clear();
    assert!(matches!(run(&s, &mut d, Session::write(test_struct("2"))), Ok(())));
    assert_eq!(d.log, vec!["open", "lock", "read", "parse", "clock", "unlock", "finish"]);
    assert_eq!(text(&d), first);
    run(&s, &mut d, Session::read()).unwrap();
    assert_eq!(d.payload, Some(test_struct("1")));
    d.now = Duration::new(110, 0);
    run(&s, &mut d, Session::write(test_struct("2"))).unwrap();
    assert_eq!(
        text(&d),
        "{\"time\":{\"secs\":110,\"nanos\":0},\"payload\":{\"test_string\":\"2\"}}"
    );
}

#[test]
fn session_reads_an_envelope_however_it_is_laid_out() {
    let s = store(3600);
    let laid_out = " {\n \"payload\" : { \"test_string\" : \"som\" } ,\n \"time\" : { \"nanos\" : 0 , \"secs\" : 200 } } \n";
    let mut d = disk(Some(laid_out), Duration::new(300, 0));
    run(&s, &mut d, Session::read()).unwrap();
    assert_eq!(d.payload, Some(test_struct("som")));
    assert!(matches!(run(&s, &mut d, Session::write(test_struct("x"))), Ok(())));
    assert_eq!(text(&d), laid_out);
}

#[test]
fn session_refuses_an_envelope_with_bytes_left_behind_it() {
    let s = store(3600);
    let corrupt = "{\"time\":{\"secs\":200,\"nanos\":0},\"payload\":{\"test_string\":\"som\"}}ing\"}}";
    let mut d = disk(Some(corrupt), Duration::new(300, 0));
    let r = run(&s, &mut d, Session::read());
    assert!(matches!(r, Err(StorageError::Serialization { .. })));
    assert_eq!(d.payload, None);
    assert!(matches!(run(&s, &mut d, Session::write(test_struct("new"))), Ok(())));
    assert_eq!(
        text(&d),
        "{\"time\":{\"secs\":300,\"nanos\":0},\"payload\":{\"test_string\":\"new\"}}"
    );
}

#[test]
fn session_refuses_a_payload_of_another_kind() {
    let s = store(3600);
    let other = "{\"time\":{\"secs\":200,\"nanos\":0},\"payload\":{\"other\":1}}";
    let mut d = disk(Some(other), Duration::new(300, 0));
    assert!(matches!(run(&s, &mut d, Session::read()), Err(StorageError::Serialization { .. })));
    run(&s, &mut d, Session::write(test_struct("new"))).unwrap();
    assert_eq!(
        text(&d),
        "{\"time\":{\"secs\":300,\"nanos\":0},\"payload\":{\"test_string\":\"new\"}}"
    );
}

#[test]
fn session_recovers_from_a_corrupt_file() {
    let s = store(1000);
    let mut d = disk(Some("not json {"), Duration::new(5, 0));
    let r = run(&s, &mut d, Session::read());
    match r {
        Err(StorageError::Serialization { source }) => {
            assert_eq!(source, parse("not json {").unwrap_err())
        }
        _ => panic!("not an error of the envelope"),
    }
    assert!(!d.locked);
    d.file = Some(Vec::new());
    assert!(matches!(run(&s, &mut d, Session::write(test_struct("a"))), Ok(())));
    run(&s, &mut d, Session::read()).unwrap();
    assert_eq!(d.payload, Some(test_struct("a")));
}

#[test]
fn session_of_a_reading_without_a_file() {
    let s = store(0);
    let mut d = disk(None, Duration::new(5, 0));
    match run(&s, &mut d, Session::read()) {
        Err(StorageError::IO { source, path }) => {
            assert_eq!(source, "no such file");
            assert_eq!(path, "\"/tmp/diffmetrik.json\"");
        }
        _ => panic!("not an i/o error"),
    }
    assert_eq!(d.log, vec!["open", "finish"]);
}

#[test]
fn session_gives_the_lock_back_after_a_failure() {
    let s = store(0);
    for (fail, log) in [
        ("open", vec!["open", "finish"]),
        ("lock", vec!["open", "lock", "finish"]),
        ("read", vec!["open", "lock", "read", "unlock", "finish"]),
        ("clock", vec!["open", "lock", "read", "parse", "clock", "unlock", "finish"]),
        ("rewrite", vec!["open", "lock", "read", "parse", "clock", "rewrite", "unlock", "finish"]),
        ("unlock", vec!["open", "lock", "read", "parse", "clock", "rewrite", "unlock", "finish"]),
    ] {
        let mut d = disk(Some("old"), Duration::new(5, 0));
        d.fail = fail;
        let r = run(&s, &mut d, Session::write(test_struct("1")));
        assert_eq!(d.log, log);
        match r {
            Err(StorageError::Time { source }) => {
                assert_eq!(fail, "clock");
                assert_eq!(source, "clock failed");
            }
            Err(StorageError::IO { source, path }) => {
                assert_eq!(source, format!("{} failed", fail));
                assert_eq!(path, "\"/tmp/diffmetrik.json\"");
            }
            _ => panic!("no error after {}", fail),
        }
        if fail != "unlock" {
            assert!(!d.locked);
        }
    }
}

#[test]
fn session_of_a_reading_fails_where_the_lock_is_not_given_back() {
    let s = store(0);
    for file in ["not json {", "{\"time\":{\"secs\":1,\"nanos\":2},\"payload\":{\"test_string\":\"a\"}}"] {
        let mut d = disk(Some(file), Duration::new(5, 0));
        d.fail = "unlock";
        match run(&s, &mut d, Session::read()) {
            Err(StorageError::IO { source, .. }) => assert_eq!(source, "unlock failed"),
            _ => panic!("not an i/o error"),
        }
        assert_eq!(d.log, vec!["open", "lock", "read", "unlock", "finish"]);
    }
}

#[test]
fn session_keeps_the_first_error() {
    let s = store(0);
    let session = Session::read()
        .step(&s, Reply::Done)
        .step(&s, Reply::Done)
        .step(&s, Reply::Failed("read failed".to_string()))
        .step(&s, Reply::Failed("unlock failed".to_string()));
    match session.outcome() {
        Some(Err(StorageError::IO { source, .. })) => assert_eq!(source, "read failed"),
        _ => panic!("not an i/o error"),
    }
}

#[test]
fn session_stays_where_a_reply_does_not_answer() {
    let s = store(0);
    let session = Session::write("1".to_string()).step(&s, Reply::Time(Duration::new(1, 0)));
    assert!(matches!(session.request(), Request::Open { write: true }));
    let session = session.step(&s, Reply::Done).step(&s, Reply::Done).step(&s, Reply::Done);
    assert!(matches!(session.request(), Request::Parse));
    let session = session.step(&s, Reply::Done);
    assert!(matches!(session.request(), Request::Parse));
    let session = session.step(&s, Reply::Failed("no envelope".to_string()));
    assert!(matches!(session.request(), Request::Clock));
    let session = session.step(&s, Reply::Done);
    assert!(matches!(session.request(), Request::Clock));
    let session = session
        .step(&s, Reply::Time(Duration::new(9, 0)))
        .step(&s, Reply::Done)
        .step(&s, Reply::Done);
    assert!(matches!(session.request(), Request::Finish));
    let session = session.step(&s, Reply::Failed("late".to_string()));
    assert!(matches!(session.outcome(), Some(Ok(()))));
}

#[test]
fn session_goes_on_until_it_has_ended() {
    let s = store(0);
    let session = Session::write("1".to_string());
    assert!(matches!(session.request(), Request::Open { write: true }));
    assert!(session.outcome().is_none());
    let session = Session::read();
    assert!(matches!(session.request(), Request::Open { write: false }));
    let session = session.step(&s, Reply::Done);
    assert!(matches!(session.request(), Request::Lock { exclusive: false }));
    let session = Session::write("1".to_string()).step(&s, Reply::Done);
    assert!(matches!(session.request(), Request::Lock { exclusive: true }));
}
