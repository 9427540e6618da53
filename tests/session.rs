use willdo::protocol::Operation;
use willdo::session::{Session, SessionError, Step};

#[test]
fn login_with_valid_token_sets_identity() {
    let mut s = Session::new();
    assert!(s.identity.is_none());
    assert_eq!(s.login("VLD0:AAAA:AAAA"), Ok(()));
    assert!(s.identity.is_some());
}

#[test]
fn login_with_bad_token_is_decode_error() {
    let mut s = Session::new();
    assert_eq!(s.login("nocolon"), Err(SessionError::DecodeError));
    assert!(s.identity.is_none());
}

#[test]
fn dispatch_login_failure_ends_session() {
    let mut s = Session::new();
    assert!(matches!(s.dispatch("login nocolon"), Step::Quit(Some(SessionError::DecodeError))));
    assert!(matches!(s.dispatch("login"), Step::Quit(Some(SessionError::ArgumentError))));
    assert!(matches!(s.dispatch("login VLD0:AAAA:AAAA"), Step::LoggedIn));
}

#[test]
fn dispatch_other_refusals_continue() {
    let mut s = Session::new();
    assert!(matches!(s.dispatch("bogus"), Step::Report(SessionError::InvalidCommand)));
    assert!(matches!(s.dispatch("get"), Step::Report(SessionError::ArgumentError)));
    assert!(matches!(s.dispatch("get a:b:c"), Step::Report(SessionError::DecodeError)));
    assert!(matches!(s.dispatch("del AAAA x"), Step::Report(SessionError::ArgumentError)));
    assert!(matches!(s.dispatch("exit"), Step::Quit(None)));
    assert!(matches!(s.dispatch("login "), Step::Quit(Some(SessionError::ArgumentError))));
}

#[test]
fn dispatch_runs_list_commands() {
    let mut s = Session::new();
    match s.dispatch("create Groceries") {
        Step::Run { key: None, exchange } => {
            assert_eq!(exchange.op, Operation::Create("Groceries".to_string()))
        }
        _ => panic!("expected a run"),
    }
    match s.dispatch("set AAAA milk") {
        Step::Run { key: Some(_), exchange } => {
            assert_eq!(exchange.op, Operation::Append("milk".to_string()))
        }
        _ => panic!("expected a run"),
    }
    match s.dispatch("del AAAA 2") {
        Step::Run { key: Some(_), exchange } => assert_eq!(exchange.op, Operation::RemoveAt(2)),
        _ => panic!("expected a run"),
    }
    match s.dispatch("get AAAA") {
        Step::Run { key: Some(_), exchange } => assert_eq!(exchange.op, Operation::Read),
        _ => panic!("expected a run"),
    }
}

#[test]
fn dispatch_signup_adopts_fresh_identity() {
    let mut s = Session::new();
    assert!(matches!(s.dispatch("signup"), Step::SignedUp));
    let first = s.identity.clone().unwrap();
    assert!(matches!(s.dispatch("  signup "), Step::SignedUp));
    assert_ne!(s.identity.clone().unwrap(), first);
}

#[test]
fn dispatch_tolerates_repeated_blanks() {
    let mut s = Session::new();
    match s.dispatch("set  AAAA\t milk") {
        Step::Run { key: Some(_), exchange } => {
            assert_eq!(exchange.op, Operation::Append("milk".to_string()))
        }
        _ => panic!("expected a run"),
    }
    assert!(matches!(s.dispatch("   "), Step::Report(SessionError::InvalidCommand)));
}
