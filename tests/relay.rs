use wakeup_relay::ctx::Ctx;
use wakeup_relay::error::{ClientError, MyError};
use wakeup_relay::relay::{AckEvent, RelayHub, WAKE_DEADLINE_SECS};
use wakeup_relay::session::{process_message, Frame, Inbound, Session, SessionState};
use wakeup_relay::wire::{encode_message, WakeMessage};

type Hub = RelayHub<&'static str, &'static str>;

const U: i32 = 7;
const V: i32 = 8;

fn ack_frame(ok: bool) -> Frame {
    Frame::Binary(encode_message(&WakeMessage::WakeUpResponse(ok)))
}

#[test]
fn wake_without_session_is_an_error() {
    let mut hub = Hub::new();
    assert_eq!(hub.begin_wake(U, 1, "ack"), Err(MyError::NoSenderFoundForUser { user_id: U }));
    assert_eq!(hub.deliver_ack(U), None);
    assert!(!hub.is_connected(U));
}

#[test]
fn late_acknowledgement_gives_false() {
    let mut hub = Hub::new();
    assert_eq!(hub.deadline_secs(), WAKE_DEADLINE_SECS);
    assert_eq!(WAKE_DEADLINE_SECS, 5);
    hub.open_session(U, 1, "session");
    assert_eq!(hub.begin_wake(U, 10, "ack"), Ok(()));
    assert!(!hub.settle_wake(U, 10, AckEvent::DeadlineElapsed));
    // The acknowledgement that comes after the deadline finds nothing.
    assert!(matches!(process_message(&mut hub, U, &ack_frame(true)), Inbound::Continue));
    assert_eq!(hub.deliver_ack(U), None);
}

#[test]
fn prompt_acknowledgement_gives_its_result() {
    let mut hub = Hub::new();
    hub.open_session(U, 1, "session");
    assert_eq!(hub.session(U), Some(&"session"));
    assert_eq!(hub.begin_wake(U, 10, "ack"), Ok(()));
    match process_message(&mut hub, U, &ack_frame(true)) {
        Inbound::Deliver(a, ok) => {
            assert_eq!(a, "ack");
            assert!(ok);
        }
        other => panic!("unexpected {other:?}"),
    }
    assert!(hub.settle_wake(U, 10, AckEvent::Acked(true)));
    assert!(!hub.settle_wake(U, 10, AckEvent::Acked(false)));
    assert!(!hub.settle_wake(U, 10, AckEvent::Dropped));
}

#[test]
fn second_session_takes_over() {
    let mut hub = Hub::new();
    hub.open_session(U, 1, "first");
    hub.open_session(U, 2, "second");
    assert_eq!(hub.session(U), Some(&"second"));
    assert_eq!(hub.session_id(U), Some(2));
    // The first session closing late does not evict the second.
    assert!(!hub.close_session(U, 1));
    assert_eq!(hub.session(U), Some(&"second"));
    assert!(hub.close_session(U, 2));
    assert_eq!(hub.session(U), None);
}

#[test]
fn identities_do_not_interfere() {
    let mut hub = Hub::new();
    hub.open_session(U, 1, "su");
    hub.open_session(V, 2, "sv");
    assert_eq!(hub.begin_wake(U, 10, "au"), Ok(()));
    assert_eq!(hub.begin_wake(V, 20, "av"), Ok(()));
    match process_message(&mut hub, V, &ack_frame(false)) {
        Inbound::Deliver(a, ok) => {
            assert_eq!(a, "av");
            assert!(!ok);
        }
        other => panic!("unexpected {other:?}"),
    }
    assert!(!hub.settle_wake(U, 10, AckEvent::DeadlineElapsed));
    assert_eq!(hub.session(V), Some(&"sv"));
    assert_eq!(hub.deliver_ack(U), None);
    assert!(hub.close_session(U, 1));
    assert_eq!(hub.session(V), Some(&"sv"));
}

#[test]
fn second_wake_call_overwrites_the_first() {
    let mut hub = Hub::new();
    hub.open_session(U, 1, "s");
    assert_eq!(hub.begin_wake(U, 10, "first"), Ok(()));
    assert_eq!(hub.begin_wake(U, 11, "second"), Ok(()));
    // The first call times out; its cleanup leaves the second call's slot.
    assert!(!hub.settle_wake(U, 10, AckEvent::DeadlineElapsed));
    assert_eq!(hub.deliver_ack(U), Some("second"));
}

#[test]
fn failed_send_is_reported() {
    let mut hub = Hub::new();
    hub.open_session(U, 1, "s");
    assert_eq!(hub.begin_wake(U, 10, "a"), Ok(()));
    let e = hub.fail_wake(U, 10, "closed".to_string());
    assert_eq!(e, MyError::FailedToSendWakeUpProto { error: "closed".to_string() });
    assert_eq!(hub.deliver_ack(U), None);
}

#[test]
fn custom_deadline() {
    let hub: Hub = RelayHub::with_deadline(30);
    assert_eq!(hub.deadline_secs(), 30);
}

#[test]
fn other_frames_are_passed_over() {
    let mut hub = Hub::new();
    hub.open_session(U, 1, "s");
    assert_eq!(hub.begin_wake(U, 10, "a"), Ok(()));
    for f in [
        Frame::Text("hi".to_string()),
        Frame::Ping(vec![1]),
        Frame::Pong(vec![1, 2, 3]),
        Frame::Binary(vec![0xff, 0x00]),
        Frame::Binary(encode_message(&WakeMessage::WakeUpRequest(wakeup_relay::wire::Device {
            device_id: 1,
            name: String::new(),
            mac_address: String::new(),
        }))),
    ] {
        assert!(matches!(process_message(&mut hub, U, &f), Inbound::Continue));
    }
    assert!(matches!(process_message(&mut hub, U, &Frame::Close), Inbound::Break));
    assert_eq!(hub.deliver_ack(U), Some("a"));
}

#[test]
fn session_lifecycle() {
    let mut hub = Hub::new();
    let mut s = Session::new(U, 1);
    assert_eq!(s.state_now(), SessionState::Handshaking);
    assert!(matches!(s.receive(&mut hub, &Frame::Close), Inbound::Break));
    assert!(s.activate(&mut hub, "out"));
    assert!(!s.activate(&mut hub, "again"));
    assert_eq!(hub.session(U), Some(&"out"));
    assert_eq!(s.state_now(), SessionState::Active);
    assert_eq!(hub.begin_wake(U, 3, "ack"), Ok(()));
    assert!(matches!(s.receive(&mut hub, &ack_frame(true)), Inbound::Deliver("ack", true)));
    assert_eq!(s.state_now(), SessionState::Active);
    assert!(matches!(s.receive(&mut hub, &Frame::Close), Inbound::Break));
    assert_eq!(s.state_now(), SessionState::Draining);
    assert!(s.close(&mut hub));
    assert_eq!(s.state_now(), SessionState::Closed);
    assert!(!s.close(&mut hub));
    assert!(!hub.is_connected(U));
}

#[test]
fn stale_session_close_keeps_the_newer_one() {
    let mut hub = Hub::new();
    let mut old = Session::new(U, 1);
    let mut new = Session::new(U, 2);
    assert!(old.activate(&mut hub, "old"));
    assert!(new.activate(&mut hub, "new"));
    assert!(!old.close(&mut hub));
    assert_eq!(hub.session(U), Some(&"new"));
}

#[test]
fn error_categories() {
    let s = String::new;
    let cases = [
        (MyError::LoginFail, 403, ClientError::LOGIN_FAIL),
        (MyError::AuthFailNoAuthTokenCookie, 403, ClientError::NO_AUTH),
        (MyError::AuthFailExpiredTokenCookie, 403, ClientError::NO_AUTH),
        (MyError::AuthFailTokenWrongFormat, 403, ClientError::NO_AUTH),
        (MyError::AuthFailInvalidTimestamp, 403, ClientError::NO_AUTH),
        (MyError::AuthFailCtxNotInRequestExt, 403, ClientError::NO_AUTH),
        (MyError::PoolCreationFail { error: s() }, 500, ClientError::SERVICE_ERROR),
        (MyError::ClientCreationFail { error: s() }, 500, ClientError::SERVICE_ERROR),
        (MyError::Database { error: s() }, 500, ClientError::DATABASE_ERROR),
        (MyError::DatabaseRowNotFound { error: s() }, 400, ClientError::INVALID_PARAMS),
        (MyError::BytesRejection { error: s() }, 422, ClientError::INVALID_PARAMS),
        (MyError::ProtobufDecodeError { error: s() }, 422, ClientError::INVALID_PARAMS),
        (MyError::UserDoesNotOwnDevice { user_id: 1, device_id: 2 }, 400, ClientError::INVALID_PARAMS),
        (MyError::NoSenderFoundForUser { user_id: 1 }, 404, ClientError::INVALID_PARAMS),
        (MyError::FailedToSendWakeUpProto { error: s() }, 500, ClientError::SERVICE_ERROR),
        (MyError::ConnectedClientsLockFailed, 500, ClientError::SERVICE_ERROR),
    ];
    for (e, status, category) in cases {
        assert_eq!(e.client_status_and_error(), (status, category), "{e:?}");
    }
    assert_eq!(ClientError::LOGIN_FAIL.as_str(), "LOGIN_FAIL");
    assert_eq!(ClientError::NO_AUTH.as_str(), "NO_AUTH");
    assert_eq!(ClientError::DATABASE_ERROR.as_str(), "DATABASE_ERROR");
    assert_eq!(ClientError::INVALID_PARAMS.as_str(), "INVALID_PARAMS");
    assert_eq!(ClientError::SERVICE_ERROR.as_str(), "SERVICE_ERROR");
}

#[test]
fn ctx_holds_the_identity() {
    let c = Ctx::new(42);
    assert_eq!(c.user_id(), 42);
    assert_eq!(c, Ctx::new(42));
}
