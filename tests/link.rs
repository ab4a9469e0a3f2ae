use roomba::api::Info;
use roomba::credential::{
    credential_from_response, password_request, ExchangeOutcome, Retrieval, RetrievalError,
    RetrievalStep,
};
use roomba::discovery::{discovery_probe, is_echo, Discovery};
use roomba::session::{decode_event, DecodeError, Session, SessionError, SessionState};
use roomba::api::{Command, Message};
use std::collections::HashMap;

fn info(ip: &str) -> Info {
    Info {
        ip: ip.to_string(),
        hostname: "iRobot-1".to_string(),
        robot_id: None,
        attrs: HashMap::new(),
    }
}

#[test]
fn password_is_last_nonempty_segment() {
    let data = b"junk\x00pass1\x00\x00pass2\x00";
    assert_eq!(credential_from_response(data), Some("pass2".to_string()));
}

#[test]
fn password_skips_invalid_utf8() {
    assert_eq!(
        credential_from_response(b"good\x00\xff\xfe"),
        Some("good".to_string())
    );
    assert_eq!(credential_from_response(b"\xff\x00\x00"), None);
    assert_eq!(credential_from_response(b""), None);
    assert_eq!(credential_from_response(b"only"), Some("only".to_string()));
    assert_eq!(credential_from_response(b"a\x00\x00\x00"), Some("a".to_string()));
}

#[test]
fn password_request_frame() {
    assert_eq!(password_request(), vec![0xf0, 0x05, 0xef, 0xcc, 0x3b, 0x29, 0x00]);
}

#[test]
fn read_failures_end_after_three_exchanges() {
    let mut r = Retrieval::new();
    assert!(matches!(r.after_handshake(true), RetrievalStep::Exchange));
    assert!(matches!(r.after_exchange(ExchangeOutcome::ReadFailed), RetrievalStep::Exchange));
    assert!(matches!(r.after_exchange(ExchangeOutcome::ReadFailed), RetrievalStep::Exchange));
    assert!(matches!(
        r.after_exchange(ExchangeOutcome::ReadFailed),
        RetrievalStep::Failed(RetrievalError::Read)
    ));
    assert_eq!(r.attempts(), 3);
}

#[test]
fn handshake_failure_is_not_retried() {
    let r = Retrieval::new();
    assert!(matches!(
        r.after_handshake(false),
        RetrievalStep::Failed(RetrievalError::Handshake)
    ));
    assert_eq!(r.attempts(), 0);
}

#[test]
fn undecodable_replies_share_the_budget() {
    let mut r = Retrieval::new();
    assert!(matches!(
        r.after_exchange(ExchangeOutcome::Received(vec![0xff])),
        RetrievalStep::Exchange
    ));
    assert!(matches!(
        r.after_exchange(ExchangeOutcome::ReadFailed),
        RetrievalStep::Exchange
    ));
    assert!(matches!(
        r.after_exchange(ExchangeOutcome::Received(vec![0, 0])),
        RetrievalStep::Failed(RetrievalError::Undecodable)
    ));
}

#[test]
fn reply_with_password_ends_retrieval() {
    let mut r = Retrieval::new();
    match r.after_exchange(ExchangeOutcome::Received(b"x\x00secret".to_vec())) {
        RetrievalStep::Done(p) => assert_eq!(p, "secret"),
        _ => panic!("expected the password"),
    }
    let mut w = Retrieval::new();
    assert!(matches!(
        w.after_exchange(ExchangeOutcome::WriteFailed),
        RetrievalStep::Failed(RetrievalError::Write)
    ));
}

#[test]
fn echo_is_never_yielded() {
    let mut d = Discovery::new();
    assert!(is_echo(b"irobotmcs"));
    assert!(!is_echo(b"irobotmc"));
    assert_eq!(discovery_probe(), b"irobotmcs".to_vec());
    assert!(d.next(b"irobotmcs", Some(info("10.0.0.2"))).is_none());
    assert!(!d.has_found(&"10.0.0.2".to_string()));
}

#[test]
fn same_address_yields_once() {
    let mut d = Discovery::new();
    let first = d.next(b"{}", Some(info("10.0.0.2")));
    assert_eq!(first.unwrap().ip, "10.0.0.2");
    assert!(d.next(b"{}", Some(info("10.0.0.2"))).is_none());
    assert!(d.next(b"{}", Some(info("10.0.0.3"))).is_some());
    assert!(d.has_found(&"10.0.0.3".to_string()));
}

#[test]
fn malformed_reply_is_skipped() {
    let mut d = Discovery::new();
    assert!(d.next(b"not json", None).is_none());
    assert!(d.next(b"{}", Some(info("10.0.0.9"))).is_some());
}

#[test]
fn send_needs_a_connected_session() {
    let mut s = Session::new("192.168.1.10", "ABC", "pw", 0);
    let m = Message::command_at(Command::Dock, None, 9);
    assert_eq!(s.send(&m).err(), Some(SessionError::NotConnected));
    let settings = s.begin_connect().unwrap();
    assert_eq!(settings.server_uri, "ssl://192.168.1.10:8883");
    assert_eq!(settings.user_name, "ABC");
    assert_eq!(settings.password, "pw");
    assert_eq!(settings.retry_interval_secs, 3);
    assert!(settings.accept_unverified_certificate);
    assert_eq!(s.current_state(), SessionState::Connecting);
    s.connected();
    let p = s.send(&m).unwrap();
    assert_eq!(p.topic, "cmd");
    assert_eq!(p.payload, r#"{"command":"dock","time":9,"initiator":"localApp"}"#);
    assert_eq!(p.qos, 0);
}

#[test]
fn send_on_closed_session_is_refused() {
    let mut s = Session::new("h", "u", "p", 4);
    s.begin_connect().unwrap();
    s.connected();
    s.close();
    s.close();
    let m = Message::command_at(Command::Stop, None, 1);
    assert_eq!(s.send(&m).err(), Some(SessionError::Closed));
    assert!(matches!(s.begin_connect(), Err(SessionError::Closed)));
    s.connected();
    assert_eq!(s.current_state(), SessionState::Closed);
}

#[test]
fn dropped_connection_reconnects() {
    let mut s = Session::new("h", "u", "p", 0);
    s.begin_connect().unwrap();
    s.connected();
    s.connection_lost();
    assert_eq!(s.current_state(), SessionState::Reconnecting);
    let m = Message::command_at(Command::Clean, None, 1);
    assert_eq!(s.send(&m).err(), Some(SessionError::NotConnected));
    s.connected();
    assert!(s.send(&m).is_ok());
    let mut f = Session::new("h", "u", "p", 0);
    f.begin_connect().unwrap();
    f.connect_failed();
    assert_eq!(f.current_state(), SessionState::Disconnected);
}

#[test]
fn telemetry_decoding() {
    let e = decode_event("state", br#"{"state":{"reported":{"batPct":87}}}"#.to_vec()).unwrap();
    assert_eq!(e.topic, "state");
    assert_eq!(e.document["state"]["reported"]["batPct"], 87);
    assert!(matches!(decode_event("t", vec![0xff, 0x7b]), Err(DecodeError::Utf8)));
    assert!(matches!(decode_event("t", b"{oops".to_vec()), Err(DecodeError::Json(_))));
}
