use yeelight_bridge::session::{AwaitEvent, Routed, SendError, Session};
use yeelight_bridge::yeelight::{Method, Power, YeelightMessage};

#[test]
fn ids_start_at_one_and_increase() {
    let mut s: Session<&str> = Session::new();
    let a = s.issue(Method::TOGGLE, "a").unwrap();
    let b = s.issue(Method::set_power(Power::On), "b").unwrap();
    let c = s.issue(Method::set_brightness(10), "c").unwrap();
    assert_eq!((a.id, b.id, c.id), (1, 2, 3));
}

#[test]
fn reply_reaches_its_own_awaiter_once() {
    let mut s: Session<&str> = Session::new();
    s.issue(Method::TOGGLE, "first").unwrap();
    s.issue(Method::TOGGLE, "second").unwrap();
    let reply = YeelightMessage::decode_line("{\"id\":2,\"result\":[\"ok\"]}").unwrap();
    match s.route(reply) {
        Routed::Deliver(who, r) => {
            assert_eq!(who, "second");
            assert_eq!(r.id, 2);
        }
        _ => panic!("expected delivery"),
    }
    let again = YeelightMessage::decode_line("{\"id\":2,\"result\":[\"ok\"]}").unwrap();
    assert!(matches!(s.route(again), Routed::Late(_)));
    assert_eq!(s.take_awaiter(1), Some("first"));
}

#[test]
fn unknown_reply_is_dropped() {
    let mut s: Session<u8> = Session::new();
    s.issue(Method::TOGGLE, 1).unwrap();
    let reply = YeelightMessage::decode_line("{\"id\":42,\"result\":[\"ok\"]}").unwrap();
    assert!(matches!(s.route(reply), Routed::Late(_)));
    assert_eq!(s.take_awaiter(1), Some(1));
}

#[test]
fn notification_is_forwarded() {
    let mut s: Session<u8> = Session::new();
    let n = YeelightMessage::decode_line("{\"method\":\"props\",\"params\":{\"power\":\"off\"}}").unwrap();
    assert!(matches!(s.route(n), Routed::Forward(_)));
}

#[test]
fn timeout_removes_the_pending_entry() {
    let mut s: Session<u8> = Session::new();
    let c = s.issue(Method::TOGGLE, 7).unwrap();
    assert!(matches!(s.settle(c.id, AwaitEvent::TimerFired), Err(SendError::Timeout)));
    assert_eq!(s.take_awaiter(c.id), None);
    let late = YeelightMessage::decode_line("{\"id\":1,\"result\":[\"ok\"]}").unwrap();
    assert!(matches!(s.route(late), Routed::Late(_)));
}

#[test]
fn closed_channel_fails_with_closed() {
    let mut s: Session<u8> = Session::new();
    let c = s.issue(Method::TOGGLE, 7).unwrap();
    assert!(matches!(s.settle(c.id, AwaitEvent::ChannelClosed), Err(SendError::Closed)));
    assert_eq!(s.take_awaiter(c.id), None);
}

#[test]
fn received_lines_are_decoded_then_routed() {
    let mut s: Session<u8> = Session::new();
    s.issue(Method::TOGGLE, 5).unwrap();
    assert!(s.receive_line("not json").is_none());
    assert!(matches!(s.receive_line("{\"method\":\"props\",\"params\":{}}"), Some(Routed::Forward(_))));
    match s.receive_line("{\"id\":1,\"result\":[\"ok\"]}") {
        Some(Routed::Deliver(who, r)) => {
            assert_eq!(who, 5);
            assert_eq!(r.id, 1);
        }
        _ => panic!("expected delivery"),
    }
    assert!(matches!(s.receive_line("{\"id\":1,\"result\":[\"ok\"]}"), Some(Routed::Late(_))));
    assert_eq!(s.current_id(), 1);
}

#[test]
fn a_reply_for_another_id_is_not_returned() {
    let mut s: Session<u8> = Session::new();
    let c = s.issue(Method::TOGGLE, 7).unwrap();
    let other = YeelightMessage::decode_line("{\"id\":9,\"result\":[\"ok\"]}").unwrap();
    let reply = match other {
        YeelightMessage::Response(r) => r,
        _ => panic!("expected a reply"),
    };
    assert!(matches!(s.settle(c.id, AwaitEvent::Reply(reply)), Err(SendError::WrongReply)));
    assert_eq!(s.take_awaiter(c.id), None);
    let mine = YeelightMessage::decode_line("{\"id\":1,\"result\":[\"ok\"]}").unwrap();
    let c2 = s.issue(Method::TOGGLE, 8).unwrap();
    assert_eq!(c2.id, 2);
    if let YeelightMessage::Response(r) = mine {
        assert!(matches!(s.settle(1, AwaitEvent::Reply(r)), Ok(_)));
    }
}
