use bgp::error::DecodeError;
use bgp::message::{keepalive_message, open_message, Message};
use bgp::session::{Session, SessionAction, SessionConfig, SessionInput, SessionState};

fn config() -> SessionConfig {
    SessionConfig { asn: 1, hold_time: 3, router_id: [10, 0, 0, 1] }
}

#[test]
fn session_sends_open_then_answers() {
    let mut s = Session::new(config());
    assert_eq!(s.state(), SessionState::Start);
    match s.step(SessionInput::Begin) {
        SessionAction::Send(b) => assert_eq!(b, open_message(1, 3, [10, 0, 0, 1])),
        _ => panic!("expected the OPEN message"),
    }
    assert_eq!(s.state(), SessionState::WaitMessage);
    assert!(matches!(s.step(SessionInput::Sent), SessionAction::Read));

    let mut data = open_message(2, 90, [192, 0, 2, 1]);
    data.extend_from_slice(&keepalive_message());
    data.extend_from_slice(&[0xff; 5]);
    match s.step(SessionInput::Received(data)) {
        SessionAction::Reply(Message::Open(m), reply) => {
            assert_eq!(m.asn, 2);
            assert_eq!(m.hold_time, 90);
            assert_eq!(reply, keepalive_message());
        }
        _ => panic!("expected a reply to OPEN"),
    }
    assert!(matches!(s.step(SessionInput::Sent), SessionAction::Reply(Message::RouteRefresh, _)));
    assert!(matches!(s.step(SessionInput::Sent), SessionAction::Read));
    assert!(matches!(s.step(SessionInput::Received(vec![0xff; 3])), SessionAction::Read));
    assert!(matches!(s.step(SessionInput::Received(Vec::new())), SessionAction::Close));
    assert_eq!(s.state(), SessionState::Closed);
}

#[test]
fn session_fails_on_malformed() {
    let mut s = Session::new(config());
    s.step(SessionInput::Begin);
    let mut bad = vec![0xffu8; 16];
    bad.extend_from_slice(&[0, 10, 4]);
    assert!(matches!(s.step(SessionInput::Received(bad)), SessionAction::Fail(DecodeError::LengthMismatch)));
    assert_eq!(s.state(), SessionState::Closed);
    assert!(matches!(s.step(SessionInput::Sent), SessionAction::Close));
}

#[test]
fn session_input_out_of_order_closes() {
    let mut s = Session::new(config());
    assert!(matches!(s.step(SessionInput::Sent), SessionAction::Close));
    assert_eq!(s.state(), SessionState::Closed);
}
