use willdo::codec::{decode, encode, FormatError};
use willdo::protocol::{Action, EngineError, Event, Exchange, Fault, Operation, Outcome, Phase};
use willdo::todo::Todo;

/// A record held in memory, standing in for the network.
struct Record {
    value: Option<Vec<u8>>,
    owner: u32,
    open: bool,
    writes: usize,
}

impl Record {
    fn new() -> Record {
        Record { value: None, owner: 0, open: false, writes: 0 }
    }
}

/// Runs one command against `rec` as the identity `writer`; checks that the
/// record is closed when the command finishes.
fn run(op: Operation, rec: &mut Record, writer: u32) -> Result<Outcome, EngineError> {
    let mut ex = Exchange::new(op);
    let mut ev = Event::Start;
    loop {
        match ex.step(ev) {
            Action::CreateRecord => {
                rec.value = None;
                rec.owner = writer;
                rec.open = true;
                ev = Event::Created;
            }
            Action::OpenRecord { .. } => {
                rec.open = true;
                ev = Event::Opened;
            }
            Action::GetValue { .. } => ev = Event::Value(rec.value.clone()),
            Action::SetValue { payload, .. } => {
                if writer == rec.owner {
                    rec.value = Some(payload);
                    rec.writes += 1;
                    ev = Event::Written;
                } else {
                    ev = Event::WriteFailed(Fault::Permission);
                }
            }
            Action::CloseRecord => {
                rec.open = false;
                ev = Event::Closed;
            }
            Action::Finish => {
                assert!(!rec.open);
                assert_eq!(ex.phase, Phase::Done);
                return ex.result.unwrap();
            }
            Action::Ignore => panic!("event ignored"),
        }
    }
}

fn read_list(rec: &mut Record) -> Todo {
    match run(Operation::Read, rec, 99) {
        Ok(Outcome::Read(t)) => t,
        other => panic!("read failed: {:?}", other),
    }
}

fn stored(rec: &Record) -> Todo {
    decode(rec.value.as_ref().unwrap()).unwrap()
}

#[test]
fn create_then_read_gives_empty_list() {
    let mut rec = Record::new();
    assert_eq!(run(Operation::Create("Groceries".to_string()), &mut rec, 1), Ok(Outcome::Created));
    let t = read_list(&mut rec);
    assert_eq!(t.title, "Groceries");
    assert!(t.content.is_empty());
}

#[test]
fn append_then_read_renders_numbered_line() {
    let mut rec = Record::new();
    run(Operation::Create("Groceries".to_string()), &mut rec, 1).unwrap();
    assert_eq!(run(Operation::Append("buy milk".to_string()), &mut rec, 1), Ok(Outcome::Appended));
    let t = read_list(&mut rec);
    assert_eq!(t.render()[1], "1. buy milk");
}

#[test]
fn remove_only_entry_leaves_empty_list() {
    let mut rec = Record::new();
    run(Operation::Create("Groceries".to_string()), &mut rec, 1).unwrap();
    run(Operation::Append("buy milk".to_string()), &mut rec, 1).unwrap();
    assert_eq!(run(Operation::RemoveAt(1), &mut rec, 1), Ok(Outcome::Removed));
    assert!(read_list(&mut rec).content.is_empty());
}

#[test]
fn remove_out_of_range_fails_and_keeps_list() {
    let mut rec = Record::new();
    run(Operation::Create("L".to_string()), &mut rec, 1).unwrap();
    run(Operation::Append("a".to_string()), &mut rec, 1).unwrap();
    run(Operation::Append("b".to_string()), &mut rec, 1).unwrap();
    let before = rec.value.clone();
    let writes = rec.writes;
    assert_eq!(run(Operation::RemoveAt(5), &mut rec, 1), Err(EngineError::IndexError));
    assert_eq!(rec.value, before);
    assert_eq!(rec.writes, writes);
    assert_eq!(stored(&rec).content, vec!["a", "b"]);
}

#[test]
fn write_by_other_identity_is_refused() {
    let mut rec = Record::new();
    run(Operation::Create("L".to_string()), &mut rec, 1).unwrap();
    run(Operation::Append("a".to_string()), &mut rec, 1).unwrap();
    let before = rec.value.clone();
    assert_eq!(
        run(Operation::Append("x".to_string()), &mut rec, 2),
        Err(EngineError::PermissionError)
    );
    assert_eq!(rec.value, before);
    assert_eq!(run(Operation::RemoveAt(1), &mut rec, 2), Err(EngineError::PermissionError));
    assert_eq!(rec.value, before);
}

#[test]
fn concurrent_appends_last_write_wins() {
    let mut rec = Record::new();
    run(Operation::Create("L".to_string()), &mut rec, 1).unwrap();
    let mut a = Exchange::new(Operation::Append("x".to_string()));
    let mut b = Exchange::new(Operation::Append("y".to_string()));
    for ex in [&mut a, &mut b] {
        assert!(matches!(ex.step(Event::Start), Action::OpenRecord { writer: true, .. }));
        assert!(matches!(ex.step(Event::Opened), Action::GetValue { .. }));
    }
    let pa = match a.step(Event::Value(rec.value.clone())) {
        Action::SetValue { payload, .. } => payload,
        other => panic!("{:?}", other),
    };
    let pb = match b.step(Event::Value(rec.value.clone())) {
        Action::SetValue { payload, .. } => payload,
        other => panic!("{:?}", other),
    };
    rec.value = Some(pa);
    rec.value = Some(pb);
    assert_eq!(stored(&rec).content, vec!["y"]);
    assert_eq!(a.step(Event::Written), Action::CloseRecord);
    assert_eq!(b.step(Event::Written), Action::CloseRecord);
}

#[test]
fn missing_value_is_not_found_and_closes() {
    let mut rec = Record::new();
    assert_eq!(run(Operation::Read, &mut rec, 1), Err(EngineError::NotFoundError));
}

#[test]
fn corrupt_value_is_format_error_and_closes() {
    let mut rec = Record::new();
    rec.value = Some(b"{\"title\":\"x\"}".to_vec());
    assert_eq!(
        run(Operation::Read, &mut rec, 1),
        Err(EngineError::FormatError(FormatError::UnknownVersion))
    );
}

#[test]
fn full_list_refuses_append() {
    let mut rec = Record::new();
    let mut t = Todo::new("L".to_string());
    for i in 0..49 {
        t.append(i.to_string()).unwrap();
    }
    rec.value = Some(encode(&t));
    assert_eq!(run(Operation::Append("z".to_string()), &mut rec, 0), Err(EngineError::Full));
}

#[test]
fn open_failure_finishes_without_close() {
    let mut ex = Exchange::new(Operation::Read);
    assert_eq!(ex.step(Event::Start), Action::OpenRecord { writer: false, delay_ms: 0 });
    assert_eq!(ex.step(Event::OpenFailed(Fault::NotFound)), Action::Finish);
    assert_eq!(ex.result, Some(Err(EngineError::NotFoundError)));
    assert!(!ex.open);
}

#[test]
fn create_failure_finishes() {
    let mut ex = Exchange::new(Operation::Create("L".to_string()));
    assert_eq!(ex.step(Event::Start), Action::CreateRecord);
    assert_eq!(ex.step(Event::CreateFailed(Fault::Network)), Action::Finish);
    assert_eq!(ex.result, Some(Err(EngineError::NetworkError)));
}

#[test]
fn network_errors_are_retried_with_backoff_then_reported() {
    let mut ex = Exchange::new(Operation::Read);
    ex.step(Event::Start);
    assert_eq!(ex.step(Event::Opened), Action::GetValue { delay_ms: 0 });
    assert_eq!(ex.step(Event::GetFailed(Fault::Network)), Action::GetValue { delay_ms: 200 });
    assert_eq!(ex.step(Event::GetFailed(Fault::Network)), Action::GetValue { delay_ms: 400 });
    assert_eq!(ex.step(Event::GetFailed(Fault::Network)), Action::GetValue { delay_ms: 800 });
    assert_eq!(ex.step(Event::GetFailed(Fault::Network)), Action::CloseRecord);
    assert_eq!(ex.result, Some(Err(EngineError::NetworkError)));
    assert_eq!(ex.step(Event::Closed), Action::Finish);
}

#[test]
fn write_retry_sends_same_payload() {
    let mut ex = Exchange::new(Operation::Create("L".to_string()));
    ex.step(Event::Start);
    let first = match ex.step(Event::Created) {
        Action::SetValue { payload, delay_ms: 0 } => payload,
        other => panic!("{:?}", other),
    };
    match ex.step(Event::WriteFailed(Fault::Network)) {
        Action::SetValue { payload, delay_ms } => {
            assert_eq!(payload, first);
            assert_eq!(delay_ms, 200);
        }
        other => panic!("{:?}", other),
    }
    assert_eq!(decode(&first).unwrap().title, "L");
}

#[test]
fn unexpected_event_is_ignored() {
    let mut ex = Exchange::new(Operation::Read);
    assert_eq!(ex.step(Event::Written), Action::Ignore);
    assert_eq!(ex.phase, Phase::Idle);
}

#[test]
fn open_network_errors_are_retried_then_reported() {
    let mut ex = Exchange::new(Operation::Append("x".to_string()));
    assert_eq!(ex.step(Event::Start), Action::OpenRecord { writer: true, delay_ms: 0 });
    assert_eq!(
        ex.step(Event::OpenFailed(Fault::Network)),
        Action::OpenRecord { writer: true, delay_ms: 200 }
    );
    assert_eq!(
        ex.step(Event::OpenFailed(Fault::Network)),
        Action::OpenRecord { writer: true, delay_ms: 400 }
    );
    assert_eq!(ex.step(Event::Opened), Action::GetValue { delay_ms: 0 });
    let mut ex = Exchange::new(Operation::Read);
    ex.step(Event::Start);
    for delay in [200, 400, 800] {
        assert_eq!(
            ex.step(Event::OpenFailed(Fault::Network)),
            Action::OpenRecord { writer: false, delay_ms: delay }
        );
    }
    assert_eq!(ex.step(Event::OpenFailed(Fault::Network)), Action::Finish);
    assert_eq!(ex.result, Some(Err(EngineError::NetworkError)));
    assert!(!ex.open);
}

#[test]
fn refused_write_closes_then_finishes() {
    let mut ex = Exchange::new(Operation::RemoveAt(1));
    ex.step(Event::Start);
    ex.step(Event::Opened);
    let mut t = Todo::new("L".to_string());
    t.append("a".to_string()).unwrap();
    assert!(matches!(ex.step(Event::Value(Some(encode(&t)))), Action::SetValue { .. }));
    assert_eq!(ex.step(Event::WriteFailed(Fault::Permission)), Action::CloseRecord);
    assert_eq!(ex.result, Some(Err(EngineError::PermissionError)));
    assert_eq!(ex.step(Event::Closed), Action::Finish);
    assert!(!ex.open);
}

#[test]
fn concurrent_appends_earlier_item_lost_both_succeed() {
    let mut rec = Record::new();
    run(Operation::Create("L".to_string()), &mut rec, 1).unwrap();
    run(Operation::Append("c".to_string()), &mut rec, 1).unwrap();
    let mut a = Exchange::new(Operation::Append("x".to_string()));
    let mut b = Exchange::new(Operation::Append("y".to_string()));
    for ex in [&mut a, &mut b] {
        ex.step(Event::Start);
        ex.step(Event::Opened);
    }
    let pb = match b.step(Event::Value(rec.value.clone())) {
        Action::SetValue { payload, .. } => payload,
        other => panic!("{:?}", other),
    };
    let pa = match a.step(Event::Value(rec.value.clone())) {
        Action::SetValue { payload, .. } => payload,
        other => panic!("{:?}", other),
    };
    rec.value = Some(pb);
    rec.value = Some(pa);
    let content = stored(&rec).content;
    assert_eq!(content, vec!["c", "x"]);
    assert!(!content.contains(&"y".to_string()));
    for ex in [&mut a, &mut b] {
        assert_eq!(ex.step(Event::Written), Action::CloseRecord);
        assert_eq!(ex.step(Event::Closed), Action::Finish);
        assert_eq!(ex.result, Some(Ok(Outcome::Appended)));
    }
}
